//! The registry of running sessions, one per language, and its spawn policy.

use crate::table::KeyedTable;
use vstd::prelude::*;

verus! {

/// How one language's server is started.
#[derive(Clone, Debug)]
pub struct LanguageConfig {
    pub command: String,
    pub args: Vec<String>,
    pub enabled: bool,
    /// Whether the server may be started without an explicit user action.
    pub auto_start: bool,
}

/// The outcome of a spawn attempt.
#[derive(Clone, Copy, Debug, PartialEq, Eq, Structural)]
pub enum LspSpawnResult {
    AlreadyRunning,
    Spawned,
    NotConfigured,
    Disabled,
}

/// The outcome of a manual restart: the handle identity that was stopped,
/// if any, and how the new spawn went.
#[derive(Clone, Copy, Debug, PartialEq, Eq, Structural)]
pub struct RestartOutcome {
    pub previous: Option<u64>,
    pub spawn: LspSpawnResult,
}

/// The registry as a mathematical value.
pub struct ManagerView {
    pub configs: Map<Seq<char>, LanguageConfig>,
    /// Running sessions: language to handle identity.
    pub running: Map<Seq<char>, u64>,
    /// Handle identities issued so far; the next one is this number.
    pub issued: u64,
}

/// What a spawn attempt for `lang` yields. An explicit user action starts a
/// server whose configuration does not allow starting on its own.
pub open spec fn spawn_outcome(v: ManagerView, lang: Seq<char>, explicit: bool) -> LspSpawnResult {
    if v.running.contains_key(lang) {
        LspSpawnResult::AlreadyRunning
    } else if !v.configs.contains_key(lang) {
        LspSpawnResult::NotConfigured
    } else if !v.configs[lang].enabled || (!explicit && !v.configs[lang].auto_start) {
        LspSpawnResult::Disabled
    } else {
        LspSpawnResult::Spawned
    }
}

/// The registry after a spawn attempt for `lang`: only a spawn registers a
/// new handle identity.
pub open spec fn after_spawn(v: ManagerView, lang: Seq<char>, explicit: bool) -> ManagerView {
    if spawn_outcome(v, lang, explicit) == LspSpawnResult::Spawned {
        ManagerView {
            configs: v.configs,
            running: v.running.insert(lang, v.issued),
            issued: (v.issued + 1) as u64,
        }
    } else {
        v
    }
}

/// Two spawn attempts in a row for a language that is already running both
/// yield `AlreadyRunning` and start nothing; and after a spawn, the next
/// attempt yields `AlreadyRunning`, so two attempts start at most one process.
pub proof fn lemma_try_spawn_twice(v: ManagerView, lang: Seq<char>, first: bool, second: bool)
    ensures
        v.running.contains_key(lang) ==> {
            &&& spawn_outcome(v, lang, first) == LspSpawnResult::AlreadyRunning
            &&& after_spawn(v, lang, first) == v
            &&& spawn_outcome(after_spawn(v, lang, first), lang, second)
                == LspSpawnResult::AlreadyRunning
            &&& after_spawn(after_spawn(v, lang, first), lang, second) == v
        },
        spawn_outcome(v, lang, first) == LspSpawnResult::Spawned ==> {
            &&& spawn_outcome(after_spawn(v, lang, first), lang, second)
                == LspSpawnResult::AlreadyRunning
            &&& after_spawn(after_spawn(v, lang, first), lang, second) == after_spawn(
                v,
                lang,
                first,
            )
        },
{
}

/// Registry of language server sessions, keyed by language id.
pub struct LspManager {
    configs: KeyedTable<LanguageConfig>,
    running: KeyedTable<u64>,
    issued: u64,
}

impl View for LspManager {
    type V = ManagerView;

    closed spec fn view(&self) -> ManagerView {
        ManagerView { configs: self.configs@, running: self.running@, issued: self.issued }
    }
}

impl LspManager {
    pub closed spec fn wf(&self) -> bool {
        &&& self.configs.wf()
        &&& self.running.wf()
        &&& forall|l: Seq<char>| #[trigger] self.running@.contains_key(l) ==> self.running@[l] < self.issued
    }

    pub fn new() -> (r: Self)
        ensures
            r.wf(),
            r@.configs == Map::<Seq<char>, LanguageConfig>::empty(),
            r@.running == Map::<Seq<char>, u64>::empty(),
            r@.issued == 0,
    {
        LspManager { configs: KeyedTable::new(), running: KeyedTable::new(), issued: 0 }
    }

    /// Sets (or replaces) the configuration of `language`.
    pub fn set_language_config(&mut self, language: String, config: LanguageConfig)
        requires
            old(self).wf(),
        ensures
            final(self).wf(),
            final(self)@.configs == old(self)@.configs.insert(language@, config),
            final(self)@.running == old(self)@.running,
            final(self)@.issued == old(self)@.issued,
    {
        self.configs.insert(language, config);
    }

    pub fn get_config(&self, language: &String) -> (r: Option<&LanguageConfig>)
        requires
            self.wf(),
        ensures
            match r {
                Some(c) => self@.configs.contains_key(language@) && self@.configs[language@] == *c,
                None => !self@.configs.contains_key(language@),
            },
    {
        self.configs.get(language)
    }

    /// Starts a session for `language` if none runs and its configuration
    /// allows it (`explicit` marks a user action, which needs no auto-start).
    /// A spawn registers a fresh handle identity for the new session.
    pub fn try_spawn(&mut self, language: &String, explicit: bool) -> (r: LspSpawnResult)
        requires
            old(self).wf(),
            spawn_outcome(old(self)@, language@, explicit) == LspSpawnResult::Spawned ==> old(
                self,
            )@.issued < u64::MAX,
        ensures
            final(self).wf(),
            r == spawn_outcome(old(self)@, language@, explicit),
            final(self)@ == after_spawn(old(self)@, language@, explicit),
    {
        if self.running.contains(language) {
            return LspSpawnResult::AlreadyRunning;
        }
        let (enabled, auto_start) = match self.configs.get(language) {
            Some(c) => (c.enabled, c.auto_start),
            None => {
                return LspSpawnResult::NotConfigured;
            },
        };
        if !enabled || (!explicit && !auto_start) {
            return LspSpawnResult::Disabled;
        }
        let id = self.issued;
        self.running.insert(language.clone(), id);
        self.issued = id + 1;
        LspSpawnResult::Spawned
    }

    /// Whether another handle identity can still be issued (a spawn needs one).
    pub fn can_issue_handle(&self) -> (r: bool)
        ensures
            r == (self@.issued < u64::MAX),
    {
        self.issued < u64::MAX
    }

    /// The handle identity of the session that runs for `language`.
    pub fn handle_id(&self, language: &String) -> (r: Option<u64>)
        requires
            self.wf(),
        ensures
            r == self@.running.get(language@),
    {
        match self.running.get(language) {
            Some(id) => Some(*id),
            None => None,
        }
    }

    /// Stops the session of `language`, if one runs, and starts a new one as
    /// an explicit user action. The new session has a new handle identity.
    pub fn manual_restart(&mut self, language: &String) -> (r: RestartOutcome)
        requires
            old(self).wf(),
            old(self)@.issued < u64::MAX,
        ensures
            final(self).wf(),
            r.previous == old(self)@.running.get(language@),
            ({
                let stopped = ManagerView {
                    configs: old(self)@.configs,
                    running: old(self)@.running.remove(language@),
                    issued: old(self)@.issued,
                };
                &&& r.spawn == spawn_outcome(stopped, language@, true)
                &&& final(self)@ == after_spawn(stopped, language@, true)
            }),
    {
        let previous = self.running.remove(language);
        let spawn = self.try_spawn(language, true);
        RestartOutcome { previous, spawn }
    }

    /// The session with identity `handle` of `language` has ended (it failed
    /// or shut down). Returns whether it was the registered one, which is
    /// then removed so that a later spawn starts a new process.
    pub fn session_ended(&mut self, language: &String, handle: u64) -> (r: bool)
        requires
            old(self).wf(),
        ensures
            final(self).wf(),
            r == (old(self)@.running.get(language@) == Some(handle)),
            final(self)@.configs == old(self)@.configs,
            final(self)@.issued == old(self)@.issued,
            final(self)@.running == (if r {
                old(self)@.running.remove(language@)
            } else {
                old(self)@.running
            }),
    {
        match self.running.get(language) {
            Some(id) => {
                if *id == handle {
                    let _ = self.running.remove(language);
                    true
                } else {
                    false
                }
            },
            None => false,
        }
    }

    /// The languages whose sessions run.
    pub fn running_servers(&self) -> (r: Vec<String>)
        requires
            self.wf(),
        ensures
            forall|k: Seq<char>|
                self@.running.contains_key(k) <==> exists|i: int|
                    0 <= i < r@.len() && #[trigger] r@[i]@ == k,
            r@.len() == self@.running.len(),
    {
        self.running.keys()
    }

    /// Forgets every running session and returns their handle identities,
    /// each of which the caller shuts down.
    pub fn shutdown_all(&mut self) -> (r: Vec<u64>)
        requires
            old(self).wf(),
        ensures
            final(self).wf(),
            final(self)@.running == Map::<Seq<char>, u64>::empty(),
            final(self)@.configs == old(self)@.configs,
            final(self)@.issued == old(self)@.issued,
            r@.len() == old(self)@.running.len(),
            forall|k: Seq<char>| #[trigger]
                old(self)@.running.contains_key(k) ==> r@.contains(old(self)@.running[k]),
    {
        self.running.take_values()
    }
}

} // verus!

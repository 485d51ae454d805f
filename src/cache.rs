use vstd::prelude::*;

use crate::document::{keys_unique, pairs_map, DocMap, Document};
use crate::text::{bool_of_text, bool_text, format_bool, format_i64, int_of_text, int_text, parse_bool, parse_i64};

verus! {

/// Why a read, or a refresh cycle, did not succeed.
#[derive(Debug, PartialEq, Eq)]
pub enum ConfigError {
    /// The key is absent from the current document.
    KeyNotFound(String),
    /// The key's stored text (second field) does not convert to the requested type.
    ParseError(String, String),
    /// The secret store could not be reached, or refused the request.
    StoreUnavailable,
}

/// When a refresh cycle is due.
#[derive(Clone, Copy, Debug, PartialEq, Eq, Structural)]
pub enum RefreshPolicy {
    /// A timer tick: a cycle runs on every tick, whatever the expiry.
    Background,
    /// A read: a cycle runs only once the document has expired.
    OnAccess,
}

/// The network work that a refresh check asks for.
#[derive(Clone, Copy, Debug, PartialEq, Eq, Structural)]
pub enum CycleKind {
    /// Nothing: the document is fresh.
    Idle,
    /// Write the whole local document to the store, and do not read this cycle.
    Write,
    /// Read the whole document from the store.
    Fetch,
}

/// What the caller of a refresh check must do next.
pub enum RefreshAction {
    /// Nothing to do: the document is fresh.
    Idle,
    /// Write these pairs, the whole local document, to the store.
    Write(Vec<(String, String)>),
    /// Read the whole document from the store and hand it to `finish_fetch`.
    Fetch,
}

impl RefreshAction {
    /// The kind of work, without its payload.
    pub open spec fn kind(&self) -> CycleKind {
        match self {
            RefreshAction::Idle => CycleKind::Idle,
            RefreshAction::Write(_) => CycleKind::Write,
            RefreshAction::Fetch => CycleKind::Fetch,
        }
    }
}

/// The abstract state of a cache: its document, when it expires, whether it holds
/// unwritten changes, and the refresh interval (all times in one unit, such as milliseconds).
pub ghost struct CacheView {
    pub document: DocMap,
    pub expires_at: int,
    pub dirty: bool,
    pub interval: int,
}

/// What a fetch handed back, as a map.
pub open spec fn fetched_map(r: Result<Vec<(String, String)>, ConfigError>) -> Option<DocMap> {
    match r {
        Ok(p) => Some(pairs_map(p@)),
        Err(_) => None,
    }
}

impl CacheView {
    /// A new cache: empty, clean, and expiring at once.
    pub open spec fn initial(now: int, interval: int) -> CacheView {
        CacheView { document: DocMap::empty(), expires_at: now, dirty: false, interval }
    }

    pub open spec fn is_stale(self, now: int) -> bool {
        now >= self.expires_at
    }

    /// The expiry after a successful cycle: one interval later, held at the clock's limit.
    pub open spec fn next_expiry(self) -> int {
        if self.expires_at + self.interval > u64::MAX {
            u64::MAX as int
        } else {
            self.expires_at + self.interval
        }
    }

    /// The work of one cycle: a write when there are local changes, else a fetch.
    pub open spec fn cycle(self) -> CycleKind {
        if self.dirty {
            CycleKind::Write
        } else {
            CycleKind::Fetch
        }
    }

    /// The work that a check at `now` under `policy` asks for.
    pub open spec fn decide(self, now: int, policy: RefreshPolicy) -> CycleKind {
        match policy {
            RefreshPolicy::Background => self.cycle(),
            RefreshPolicy::OnAccess => if self.is_stale(now) {
                self.cycle()
            } else {
                CycleKind::Idle
            },
        }
    }

    /// The state after a write-back that succeeded (`ok`) or failed.
    pub open spec fn after_write(self, ok: bool) -> CacheView {
        if ok {
            CacheView { dirty: false, expires_at: self.next_expiry(), ..self }
        } else {
            self
        }
    }

    /// The state after a fetch that brought a document, or failed.
    pub open spec fn after_fetch(self, fetched: Option<DocMap>) -> CacheView {
        match fetched {
            Some(d) => CacheView { document: d, dirty: false, expires_at: self.next_expiry(), ..self },
            None => self,
        }
    }

    /// The state after a local change of one key.
    pub open spec fn after_set(self, key: Seq<char>, value: Seq<char>) -> CacheView {
        CacheView { document: self.document.insert(key, value), dirty: true, ..self }
    }
}

/// A configuration cache: one document, its expiry and its dirty flag.
/// It does no network work itself: a refresh check says what to do, and the outcome is
/// handed back to `finish_write` or `finish_fetch`.
pub struct CacheState {
    document: Document,
    expires_at: u64,
    dirty: bool,
    interval: u64,
}

impl View for CacheState {
    type V = CacheView;

    closed spec fn view(&self) -> CacheView {
        CacheView {
            document: self.document@,
            expires_at: self.expires_at as int,
            dirty: self.dirty,
            interval: self.interval as int,
        }
    }
}

impl CacheState {
    pub closed spec fn wf(&self) -> bool {
        self.document.wf()
    }

    /// A cache created at `now`: empty, and stale at once.
    pub fn new(now: u64, interval: u64) -> (c: CacheState)
        ensures
            c.wf(),
            c@ == CacheView::initial(now as int, interval as int),
    {
        CacheState { document: Document::new(), expires_at: now, dirty: false, interval }
    }

    /// Whether the document has expired at `now`.
    pub fn is_stale(&self, now: u64) -> (r: bool)
        ensures
            r == self@.is_stale(now as int),
    {
        now >= self.expires_at
    }

    /// Whether the document holds local changes not yet written to the store.
    pub fn is_dirty(&self) -> (r: bool)
        ensures
            r == self@.dirty,
    {
        self.dirty
    }

    /// The time at which the document expires.
    pub fn expires_at(&self) -> (r: u64)
        ensures
            r == self@.expires_at,
    {
        self.expires_at
    }

    /// The refresh interval fixed at construction.
    pub fn interval(&self) -> (r: u64)
        ensures
            r == self@.interval,
    {
        self.interval
    }

    /// The refresh check: what a caller must do at `now` under `policy`. A write carries
    /// the whole local document.
    pub fn decide(&self, now: u64, policy: RefreshPolicy) -> (a: RefreshAction)
        requires
            self.wf(),
        ensures
            a.kind() == self@.decide(now as int, policy),
            a matches RefreshAction::Write(p) ==> keys_unique(p@) && pairs_map(p@) == self@.document,
    {
        let due = match policy {
            RefreshPolicy::Background => true,
            RefreshPolicy::OnAccess => now >= self.expires_at,
        };
        if !due {
            RefreshAction::Idle
        } else if self.dirty {
            RefreshAction::Write(self.document.to_pairs())
        } else {
            RefreshAction::Fetch
        }
    }

    fn advance(&mut self)
        ensures
            final(self)@ == (CacheView { expires_at: old(self)@.next_expiry(), ..old(self)@ }),
            final(self).document == old(self).document,
    {
        if self.expires_at > u64::MAX - self.interval {
            self.expires_at = u64::MAX;
        } else {
            self.expires_at = self.expires_at + self.interval;
        }
    }

    /// Records the outcome of a write-back. On success the document is trusted as written:
    /// the flag is cleared and the expiry advanced. On failure nothing changes, so the
    /// change is written again at the next cycle.
    pub fn finish_write(&mut self, outcome: Result<(), ConfigError>)
        requires
            old(self).wf(),
        ensures
            final(self).wf(),
            final(self)@ == old(self)@.after_write(outcome is Ok),
    {
        if outcome.is_ok() {
            self.advance();
            self.dirty = false;
        }
    }

    /// Records the outcome of a fetch. On success the document is replaced whole, the flag
    /// cleared and the expiry advanced. On failure nothing changes: the last document stays.
    pub fn finish_fetch(&mut self, outcome: Result<Vec<(String, String)>, ConfigError>)
        requires
            old(self).wf(),
        ensures
            final(self).wf(),
            final(self)@ == old(self)@.after_fetch(fetched_map(outcome)),
    {
        match outcome {
            Ok(pairs) => {
                self.document = Document::from_pairs(pairs);
                self.advance();
                self.dirty = false;
            },
            Err(_) => {},
        }
    }

    /// Stores the text `value` under `key`; it reaches the store at the next cycle.
    pub fn set_raw(&mut self, key: &str, value: String)
        requires
            old(self).wf(),
        ensures
            final(self).wf(),
            final(self)@ == old(self)@.after_set(key@, value@),
    {
        self.document.upsert(key.to_owned(), value);
        self.dirty = true;
    }

    /// Stores a string under `key`.
    pub fn set_string(&mut self, key: &str, value: &str)
        requires
            old(self).wf(),
        ensures
            final(self).wf(),
            final(self)@ == old(self)@.after_set(key@, value@),
    {
        self.set_raw(key, value.to_owned());
    }

    /// Stores the canonical text of an integer under `key`.
    pub fn set_i64(&mut self, key: &str, value: i64)
        requires
            old(self).wf(),
        ensures
            final(self).wf(),
            final(self)@ == old(self)@.after_set(key@, int_text(value as int)),
    {
        self.set_raw(key, format_i64(value));
    }

    /// Stores the canonical text of a boolean under `key`.
    pub fn set_bool(&mut self, key: &str, value: bool)
        requires
            old(self).wf(),
        ensures
            final(self).wf(),
            final(self)@ == old(self)@.after_set(key@, bool_text(value)),
    {
        self.set_raw(key, format_bool(value));
    }

    /// The text stored under `key`.
    pub fn get_string(&self, key: &str) -> (r: Result<String, ConfigError>)
        requires
            self.wf(),
        ensures
            match r {
                Ok(v) => self@.document.contains_key(key@) && v@ == self@.document[key@],
                Err(ConfigError::KeyNotFound(k)) => !self@.document.contains_key(key@) && k@ == key@,
                Err(_) => false,
            },
    {
        let k = key.to_owned();
        match self.document.lookup(&k) {
            Some(v) => Ok(v.clone()),
            None => Err(ConfigError::KeyNotFound(k)),
        }
    }

    /// The integer stored under `key`.
    pub fn get_i64(&self, key: &str) -> (r: Result<i64, ConfigError>)
        requires
            self.wf(),
        ensures
            match r {
                Ok(v) => self@.document.contains_key(key@) && int_of_text(self@.document[key@])
                    == Some(v as int),
                Err(ConfigError::KeyNotFound(k)) => !self@.document.contains_key(key@) && k@ == key@,
                Err(ConfigError::ParseError(k, raw)) => self@.document.contains_key(key@)
                    && int_of_text(self@.document[key@]) is None && k@ == key@ && raw@
                    == self@.document[key@],
                Err(ConfigError::StoreUnavailable) => false,
            },
    {
        let raw = self.get_string(key)?;
        match parse_i64(raw.as_str()) {
            Some(v) => Ok(v),
            None => Err(ConfigError::ParseError(key.to_owned(), raw)),
        }
    }

    /// The boolean stored under `key`.
    pub fn get_bool(&self, key: &str) -> (r: Result<bool, ConfigError>)
        requires
            self.wf(),
        ensures
            match r {
                Ok(v) => self@.document.contains_key(key@) && bool_of_text(self@.document[key@])
                    == Some(v),
                Err(ConfigError::KeyNotFound(k)) => !self@.document.contains_key(key@) && k@ == key@,
                Err(ConfigError::ParseError(k, raw)) => self@.document.contains_key(key@)
                    && bool_of_text(self@.document[key@]) is None && k@ == key@ && raw@
                    == self@.document[key@],
                Err(ConfigError::StoreUnavailable) => false,
            },
    {
        let raw = self.get_string(key)?;
        match parse_bool(raw.as_str()) {
            Some(v) => Ok(v),
            None => Err(ConfigError::ParseError(key.to_owned(), raw)),
        }
    }
}

} // verus!

//! System checks: messages about the project's configuration, and a
//! registry of tagged check functions.

use vstd::prelude::*;
use crate::text::{owned, str_byte_len, str_eq, str_len};

verus! {

/// The severity of a check message.
#[derive(Debug, Clone, Copy, PartialEq, Eq, Structural)]
pub enum CheckLevel {
    Debug,
    Info,
    Warning,
    Error,
    Critical,
}

impl CheckLevel {
    /// The lowercase name of the level.
    pub open spec fn spec_str(self) -> Seq<char> {
        match self {
            CheckLevel::Debug => "debug"@,
            CheckLevel::Info => "info"@,
            CheckLevel::Warning => "warning"@,
            CheckLevel::Error => "error"@,
            CheckLevel::Critical => "critical"@,
        }
    }

    /// The lowercase name of the level.
    pub fn as_str(&self) -> (r: &'static str)
        ensures
            r@ == self.spec_str(),
    {
        match self {
            CheckLevel::Debug => "debug",
            CheckLevel::Info => "info",
            CheckLevel::Warning => "warning",
            CheckLevel::Error => "error",
            CheckLevel::Critical => "critical",
        }
    }
}

/// A finding of a check: level, id, message, and optional hint and object.
#[derive(Debug, Clone)]
pub struct CheckMessage {
    pub level: CheckLevel,
    pub id: String,
    pub msg: String,
    pub hint: Option<String>,
    pub obj: Option<String>,
}

impl CheckMessage {
    /// A message without hint or object.
    pub fn new(level: CheckLevel, id: &str, msg: &str) -> (r: Self)
        ensures
            r.level == level,
            r.id@ == id@,
            r.msg@ == msg@,
            r.hint is None,
            r.obj is None,
    {
        CheckMessage { level, id: owned(id), msg: owned(msg), hint: None, obj: None }
    }

    /// The same message with a hint.
    pub fn with_hint(self, hint: &str) -> (r: Self)
        ensures
            r.level == self.level,
            r.id == self.id,
            r.msg == self.msg,
            r.hint matches Some(h) && h@ == hint@,
            r.obj == self.obj,
    {
        CheckMessage { hint: Some(owned(hint)), ..self }
    }

    /// The same message with the object it is about.
    pub fn with_obj(self, obj: &str) -> (r: Self)
        ensures
            r.level == self.level,
            r.id == self.id,
            r.msg == self.msg,
            r.hint == self.hint,
            r.obj matches Some(o) && o@ == obj@,
    {
        CheckMessage { obj: Some(owned(obj)), ..self }
    }
}

/// The concatenation of a list of message lists.
pub open spec fn flatten(outs: Seq<Seq<CheckMessage>>) -> Seq<CheckMessage>
    decreases outs.len(),
{
    if outs.len() == 0 {
        Seq::empty()
    } else {
        flatten(outs.drop_last()) + outs.last()
    }
}

/// Check functions with their tags, in registration order.
pub struct ChecksRegistry<C> {
    checks: Vec<(C, Vec<String>)>,
}

impl<C: Fn() -> Vec<CheckMessage>> ChecksRegistry<C> {
    /// The registered checks, with their tags.
    pub closed spec fn spec_checks(&self) -> Seq<(C, Seq<Seq<char>>)> {
        self.checks@.map_values(|e: (C, Vec<String>)| (e.0, e.1@.map_values(|t: String| t@)))
    }

    /// An empty registry.
    pub fn new() -> (r: Self)
        ensures
            r.spec_checks().len() == 0,
    {
        ChecksRegistry { checks: Vec::new() }
    }

    /// Registers `check` under `tags`.
    pub fn register(&mut self, check: C, tags: Vec<String>)
        ensures
            final(self).spec_checks() == old(self).spec_checks().push((check, tags@.map_values(|t: String| t@))),
    {
        self.checks.push((check, tags));
        assert(self.spec_checks() =~= old(self).spec_checks().push((check, tags@.map_values(|t: String| t@))));
    }

    /// Runs every check, in registration order, and gathers their messages.
    pub fn run_all(&self) -> (r: Vec<CheckMessage>)
        requires
            forall|i: int| 0 <= i < self.spec_checks().len() ==> (#[trigger] self.spec_checks()[i]).0.requires(()),
        ensures
            exists|outs: Seq<Seq<CheckMessage>>| outs.len() == self.spec_checks().len()
                && (forall|i: int| 0 <= i < outs.len() ==> exists|v: Vec<CheckMessage>|
                    #[trigger] outs[i] == v@ && self.spec_checks()[i].0.ensures((), v))
                && r@ == flatten(outs),
    {
        let mut results: Vec<CheckMessage> = Vec::new();
        let ghost mut outs: Seq<Seq<CheckMessage>> = Seq::empty();
        let mut i: usize = 0;
        while i < self.checks.len()
            invariant
                i <= self.checks@.len(),
                self.spec_checks().len() == self.checks@.len(),
                forall|k: int| 0 <= k < self.spec_checks().len() ==> (#[trigger] self.spec_checks()[k]).0.requires(()),
                outs.len() == i,
                forall|k: int| 0 <= k < outs.len() ==> exists|v: Vec<CheckMessage>|
                    #[trigger] outs[k] == v@ && self.spec_checks()[k].0.ensures((), v),
                results@ == flatten(outs),
            decreases self.checks.len() - i,
        {
            assert(self.spec_checks()[i as int].0 == self.checks@[i as int].0);
            let mut out = (self.checks[i].0)();
            let ghost v = out;
            let ghost prev = outs;
            proof {
                outs = outs.push(v@);
                assert(outs.drop_last() =~= prev);
                assert(outs[i as int] == v@);
            }
            results.append(&mut out);
            i = i + 1;
        }
        results
    }
}

impl<C: Fn() -> Vec<CheckMessage>> ChecksRegistry<C> {
    /// Runs the checks registered under `tag`, in registration order, and
    /// gathers their messages.
    pub fn run_tagged(&self, tag: &str) -> (r: Vec<CheckMessage>)
        requires
            forall|i: int| 0 <= i < self.spec_checks().len() ==> (#[trigger] self.spec_checks()[i]).0.requires(()),
        ensures
            exists|outs: Seq<Seq<CheckMessage>>| outs.len() == self.spec_checks().len()
                && (forall|i: int| 0 <= i < outs.len() ==>
                    if self.spec_checks()[i].1.contains(tag@) {
                        exists|v: Vec<CheckMessage>| #[trigger] outs[i] == v@ && self.spec_checks()[i].0.ensures((), v)
                    } else {
                        outs[i].len() == 0
                    })
                && r@ == flatten(outs),
    {
        let mut results: Vec<CheckMessage> = Vec::new();
        let ghost mut outs: Seq<Seq<CheckMessage>> = Seq::empty();
        let mut i: usize = 0;
        while i < self.checks.len()
            invariant
                i <= self.checks@.len(),
                self.spec_checks().len() == self.checks@.len(),
                forall|k: int| 0 <= k < self.spec_checks().len() ==> (#[trigger] self.spec_checks()[k]).0.requires(()),
                outs.len() == i,
                forall|k: int| 0 <= k < outs.len() ==>
                    if self.spec_checks()[k].1.contains(tag@) {
                        exists|v: Vec<CheckMessage>| #[trigger] outs[k] == v@ && self.spec_checks()[k].0.ensures((), v)
                    } else {
                        outs[k].len() == 0
                    },
                results@ == flatten(outs),
            decreases self.checks.len() - i,
        {
            assert(self.spec_checks()[i as int].0 == self.checks@[i as int].0);
            let tags = &self.checks[i].1;
            let ghost tv = tags@.map_values(|t: String| t@);
            assert(self.spec_checks()[i as int].1 == tv);
            let mut found = false;
            let mut k: usize = 0;
            while k < tags.len()
                invariant
                    k <= tags@.len(),
                    tv == tags@.map_values(|t: String| t@),
                    found == (exists|j: int| 0 <= j < k && tv[j] == tag@),
                decreases tags.len() - k,
            {
                if str_eq(tags[k].as_str(), tag) {
                    assert(tv[k as int] == tag@);
                    found = true;
                }
                k = k + 1;
            }
            assert(found == tv.contains(tag@));
            let ghost prev = outs;
            if found {
                let mut out = (self.checks[i].0)();
                let ghost v = out;
                proof {
                    outs = outs.push(v@);
                    assert(outs.drop_last() =~= prev);
                    assert(outs[i as int] == v@);
                }
                results.append(&mut out);
            } else {
                proof {
                    outs = outs.push(Seq::empty());
                    assert(outs.drop_last() =~= prev);
                    assert(flatten(outs) =~= flatten(prev));
                }
            }
            i = i + 1;
        }
        results
    }
}

/// The message for a project running with debugging on.
pub open spec fn debug_mode_finding() -> (CheckLevel, Seq<char>, Seq<char>, Seq<char>) {
    (CheckLevel::Warning, "security.W001"@, "DEBUG=True in production is a security risk."@, "Set DEBUG=False in production settings."@)
}

/// What a message says: level, id, text and hint.
pub open spec fn finding_of(m: CheckMessage) -> (CheckLevel, Seq<char>, Seq<char>, Seq<char>) {
    (m.level, m.id@, m.msg@, match m.hint { Some(h) => h@, None => Seq::empty() })
}

/// Warns when debugging is on.
pub fn check_debug_mode(debug: bool) -> (r: Vec<CheckMessage>)
    ensures
        r@.len() == (if debug { 1nat } else { 0nat }),
        debug ==> finding_of(r@[0]) == debug_mode_finding() && r@[0].hint is Some && r@[0].obj is None,
{
    let mut msgs: Vec<CheckMessage> = Vec::new();
    if debug {
        msgs.push(
            CheckMessage::new(CheckLevel::Warning, "security.W001", "DEBUG=True in production is a security risk.")
                .with_hint("Set DEBUG=False in production settings."),
        );
    }
    msgs
}

/// The message for a secret key shorter than 32 bytes.
pub open spec fn short_key_finding() -> (CheckLevel, Seq<char>, Seq<char>, Seq<char>) {
    (CheckLevel::Warning, "security.W002"@, "SECRET_KEY is too short (< 32 chars)."@, "Generate a long, random secret key."@)
}

/// The message for the placeholder secret key.
pub open spec fn default_key_finding() -> (CheckLevel, Seq<char>, Seq<char>, Seq<char>) {
    (CheckLevel::Error, "security.E001"@, "SECRET_KEY is the default value."@, "Change it immediately for production."@)
}

/// The findings about a secret key: too short (under 32 bytes), then still
/// the placeholder value.
pub open spec fn key_findings(key: Seq<char>) -> Seq<(CheckLevel, Seq<char>, Seq<char>, Seq<char>)> {
    (if str_len(key) < 32 { seq![short_key_finding()] } else { Seq::empty() })
        + (if key == "change-me-to-a-random-string"@ { seq![default_key_finding()] } else { Seq::empty() })
}

/// Warns about a short secret key and errs on the placeholder one.
pub fn check_secret_key_length(key: &str) -> (r: Vec<CheckMessage>)
    ensures
        r@.map_values(|m: CheckMessage| finding_of(m)) == key_findings(key@),
        forall|i: int| 0 <= i < r@.len() ==> (#[trigger] r@[i]).hint is Some && r@[i].obj is None,
{
    let mut msgs: Vec<CheckMessage> = Vec::new();
    if str_byte_len(key) < 32 {
        msgs.push(
            CheckMessage::new(CheckLevel::Warning, "security.W002", "SECRET_KEY is too short (< 32 chars).")
                .with_hint("Generate a long, random secret key."),
        );
    }
    let ghost first = msgs@;
    if str_eq(key, "change-me-to-a-random-string") {
        msgs.push(
            CheckMessage::new(CheckLevel::Error, "security.E001", "SECRET_KEY is the default value.")
                .with_hint("Change it immediately for production."),
        );
    }
    assert(msgs@.map_values(|m: CheckMessage| finding_of(m)) =~= key_findings(key@));
    msgs
}

} // verus!

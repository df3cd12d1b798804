//! What a request for logs asks for: the backend, the lookback window and
//! the names of the containers to choose from.

use vstd::prelude::*;
use vstd::string::{StrSliceExecFns, StringExecFns};

verus! {

/// Where the logs come from.
pub enum Backend {
    /// The container runtime of this machine.
    LocalRuntime,
    /// The orchestrator; the text narrows the choice of the namespace.
    Orchestrator { namespace: String },
}

/// A request for logs, worked out.
pub struct LogsPlan {
    pub backend: Backend,
    pub lookback_hours: i64,
    pub lookback_seconds: i64,
    pub follow: bool,
}

/// The hours to look back where none are given.
pub const DEFAULT_LOOKBACK_HOURS: u8 = 1;

pub const SECONDS_IN_HOUR: i64 = 3600;

/// The hours to look back.
pub open spec fn lookback_of(since: Option<u8>) -> int {
    match since {
        Some(hours) => hours as int,
        None => DEFAULT_LOOKBACK_HOURS as int,
    }
}

/// Works out a request: a namespace selects the orchestrator, its absence the
/// local runtime; the lookback window is one hour unless given.
pub fn plan_logs(namespace: Option<&str>, since: Option<u8>, follow: bool) -> (plan: LogsPlan)
    ensures
        plan.follow == follow,
        plan.lookback_hours == lookback_of(since),
        plan.lookback_seconds == lookback_of(since) * 3600,
        match namespace {
            Some(given) => plan.backend matches Backend::Orchestrator { namespace: text } && text@
                == given@,
            None => plan.backend is LocalRuntime,
        },
{
    let hours: u8 = match since {
        Some(hours) => hours,
        None => DEFAULT_LOOKBACK_HOURS,
    };
    let lookback_hours: i64 = hours as i64;
    let backend = match namespace {
        Some(given) => Backend::Orchestrator { namespace: String::from_str(given) },
        None => Backend::LocalRuntime,
    };
    LogsPlan {
        backend,
        lookback_hours,
        lookback_seconds: lookback_hours * SECONDS_IN_HOUR,
        follow,
    }
}

/// The earliest time, in seconds since the Unix epoch, of the lines asked
/// for: the lookback window before now, and no less than the least number
/// that the type holds.
pub fn since_timestamp(now: i64, lookback_seconds: i64) -> (since: i64)
    requires
        lookback_seconds >= 0,
    ensures
        since == if now - lookback_seconds >= i64::MIN {
            now - lookback_seconds
        } else {
            i64::MIN as int
        },
{
    if now >= i64::MIN + lookback_seconds {
        now - lookback_seconds
    } else {
        i64::MIN
    }
}

/// A container's name without the slash that the runtime puts in front.
pub open spec fn display_name(raw: Seq<char>) -> Seq<char> {
    if raw.len() > 0 && raw[0] == '/' {
        raw.skip(1)
    } else {
        raw
    }
}

/// The name of a container as it is shown.
pub fn container_name(raw: &str) -> (name: String)
    ensures
        name@ == display_name(raw@),
{
    let n: usize = raw.unicode_len();
    if n > 0 && raw.get_char(0) == '/' {
        let rest = raw.substring_char(1, n);
        assert(rest@ =~= raw@.skip(1));
        String::from_str(rest)
    } else {
        String::from_str(raw)
    }
}

/// The display names of the given names.
pub open spec fn display_names(names: Seq<Seq<char>>) -> Seq<Seq<char>> {
    Seq::new(names.len(), |j: int| display_name(names[j]))
}

/// The names of all the containers listed, in order; a container without
/// names adds none.
pub open spec fn listed_names(listed: Seq<Option<Seq<Seq<char>>>>) -> Seq<Seq<char>>
    decreases listed.len(),
{
    if listed.len() == 0 {
        Seq::empty()
    } else {
        listed_names(listed.drop_last()) + match listed.last() {
            Some(names) => display_names(names),
            None => Seq::empty(),
        }
    }
}

/// The names to choose a container from.
pub fn container_names(listed: &Vec<Option<Vec<String>>>) -> (shown: Vec<String>)
    ensures
        shown.deep_view() == listed_names(listed.deep_view()),
{
    let mut shown: Vec<String> = Vec::new();
    let mut i: usize = 0;
    assert(listed.deep_view().take(0) =~= Seq::empty());
    assert(shown.deep_view() =~= Seq::empty());
    while i < listed.len()
        invariant
            0 <= i <= listed.len(),
            shown.deep_view() == listed_names(listed.deep_view().take(i as int)),
        decreases listed.len() - i,
    {
        let ghost before = shown.deep_view();
        let ghost all = listed.deep_view();
        assert(all.take(i + 1).drop_last() =~= all.take(i as int));
        assert(all.take(i + 1).last() == all[i as int]);
        assert(all[i as int] == listed@[i as int].deep_view());
        match &listed[i] {
            Some(names) => {
                let ghost wanted = display_names(names.deep_view());
                let mut j: usize = 0;
                assert(shown.deep_view() =~= before + wanted.take(0));
                while j < names.len()
                    invariant
                        0 <= j <= names.len(),
                        wanted == display_names(names.deep_view()),
                        shown.deep_view() == before + wanted.take(j as int),
                    decreases names.len() - j,
                {
                    let ghost so_far = shown.deep_view();
                    let name = container_name(names[j].as_str());
                    shown.push(name);
                    assert(names.deep_view()[j as int] == names@[j as int]@);
                    assert(shown.deep_view() =~= so_far.push(wanted[j as int]));
                    assert(before + wanted.take(j + 1) =~= (before + wanted.take(j as int)).push(
                        wanted[j as int],
                    ));
                    j += 1;
                }
                assert(wanted.take(names.len() as int) =~= wanted);
            },
            None => {
                assert(before + Seq::<Seq<char>>::empty() =~= before);
            },
        }
        i += 1;
    }
    assert(listed.deep_view().take(listed.len() as int) =~= listed.deep_view());
    shown
}

} // verus!

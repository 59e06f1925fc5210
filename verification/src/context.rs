//! Stable runner identity, comparison environment, and report provenance.
use crate::text;
use crate::text_map;
use crate::text_map::TextMap;
use vstd::prelude::*;

verus! {

/// Run-level context kept in every report. The runner and the environment
/// decide which reports can be compared; the provenance never does.
#[derive(Debug)]
pub struct ReportContext {
    pub runner_id: String,
    pub environment: TextMap,
    pub provenance: TextMap,
}

impl Default for ReportContext {
    fn default() -> (r: ReportContext)
        ensures
            r.runner_id@ == ""@,
            r.environment@ == Map::<Seq<char>, Seq<char>>::empty(),
            r.provenance@ == Map::<Seq<char>, Seq<char>>::empty(),
    {
        ReportContext::new("".to_owned())
    }
}

/// A failure to load or accept a context document.
#[allow(inconsistent_fields)]
#[derive(Debug)]
pub enum ContextError {
    Io { path: String, message: String },
    Malformed { path: String, message: String },
    Invalid { path: Option<String>, reason: String },
}

impl ContextError {
    pub open spec fn message_text(&self) -> Seq<char> {
        match self {
            ContextError::Io { path, message } => "failed to read report context "@ + path@ + ": "@
                + message@,
            ContextError::Malformed { path, message } => "malformed report context at "@ + path@
                + ": "@ + message@,
            ContextError::Invalid { path, reason } => match path {
                Some(path) => "invalid report context at "@ + path@ + ": "@ + reason@,
                None => "invalid report context: "@ + reason@,
            },
        }
    }

    /// The error as text.
    pub fn message(&self) -> (r: String)
        ensures
            r@ == self.message_text(),
    {
        match self {
            ContextError::Io { path, message } => {
                let mut r = "failed to read report context ".to_owned();
                r.append(path.as_str());
                r.append(": ");
                r.append(message.as_str());
                r
            },
            ContextError::Malformed { path, message } => {
                let mut r = "malformed report context at ".to_owned();
                r.append(path.as_str());
                r.append(": ");
                r.append(message.as_str());
                r
            },
            ContextError::Invalid { path, reason } => match path {
                Some(path) => {
                    let mut r = "invalid report context at ".to_owned();
                    r.append(path.as_str());
                    r.append(": ");
                    r.append(reason.as_str());
                    r
                },
                None => {
                    let mut r = "invalid report context: ".to_owned();
                    r.append(reason.as_str());
                    r
                },
            },
        }
    }
}

/// What is wrong with one entry of a map called `name`, if anything: a blank
/// key, or else a blank value.
pub open spec fn entry_problem(name: Seq<char>, pair: text_map::Pair) -> Option<Seq<char>> {
    if text::blank(pair.0) {
        Some(name + " keys must not be empty"@)
    } else if text::blank(pair.1) {
        Some(name + " value for "@ + text::debug_form(pair.0) + " must not be empty"@)
    } else {
        None
    }
}

/// What is wrong with the first wrong entry from `from` on, if any.
pub open spec fn map_problem(name: Seq<char>, pairs: Seq<text_map::Pair>, from: int) -> Option<
    Seq<char>,
>
    decreases pairs.len() - from,
{
    if from < 0 || from >= pairs.len() {
        None
    } else if entry_problem(name, pairs[from]) is Some {
        entry_problem(name, pairs[from])
    } else {
        map_problem(name, pairs, from + 1)
    }
}

/// A map has no problem exactly when no key and no value of it is blank.
pub proof fn map_problem_iff_blank(name: Seq<char>, pairs: Seq<text_map::Pair>, from: int)
    requires
        0 <= from <= pairs.len(),
    ensures
        map_problem(name, pairs, from) is None <==> forall|i: int|
            from <= i < pairs.len() ==> !text::blank((#[trigger] pairs[i]).0) && !text::blank(
                pairs[i].1,
            ),
    decreases pairs.len() - from,
{
    if from < pairs.len() {
        map_problem_iff_blank(name, pairs, from + 1);
        assert(entry_problem(name, pairs[from]) is Some == (text::blank(pairs[from].0)
            || text::blank(pairs[from].1)));
        if map_problem(name, pairs, from) is None {
            assert forall|i: int| from <= i < pairs.len() implies !text::blank(
                (#[trigger] pairs[i]).0,
            ) && !text::blank(pairs[i].1) by {
                if i == from {
                }
            }
        }
    }
}

/// The first problem of a map called `name`.
pub fn find_map_problem(name: &str, values: &TextMap) -> (r: Option<String>)
    ensures
        r is Some == map_problem(name@, values.pairs(), 0) is Some,
        r matches Some(reason) ==> reason@ == map_problem(name@, values.pairs(), 0)->0,
{
    let entries = values.entries();
    let ghost pairs = values.pairs();
    let mut i: usize = 0;
    while i < entries.len()
        invariant
            i <= entries.len(),
            pairs == values.pairs(),
            pairs == text_map::pairs_of(entries@),
            map_problem(name@, pairs, 0) == map_problem(name@, pairs, i as int),
        decreases entries.len() - i,
    {
        assert(pairs[i as int] == (entries@[i as int].0@, entries@[i as int].1@));
        if text::is_blank(entries[i].0.as_str()) {
            let mut reason = name.to_owned();
            reason.append(" keys must not be empty");
            return Some(reason);
        }
        if text::is_blank(entries[i].1.as_str()) {
            let mut reason = name.to_owned();
            reason.append(" value for ");
            reason.append(text::debug_text(entries[i].0.as_str()).as_str());
            reason.append(" must not be empty");
            return Some(reason);
        }
        i += 1;
    }
    None
}

impl ReportContext {
    /// The context of a stable physical runner.
    pub fn new(runner_id: String) -> (r: ReportContext)
        ensures
            r.runner_id == runner_id,
            r.environment@ == Map::<Seq<char>, Seq<char>>::empty(),
            r.provenance@ == Map::<Seq<char>, Seq<char>>::empty(),
    {
        ReportContext { runner_id, environment: TextMap::new(), provenance: TextMap::new() }
    }

    pub fn with_environment(self, key: String, value: String) -> (r: ReportContext)
        ensures
            r.runner_id == self.runner_id,
            r.environment@ == self.environment@.insert(key@, value@),
            r.provenance == self.provenance,
    {
        ReportContext {
            runner_id: self.runner_id,
            environment: self.environment.inserted(key, value),
            provenance: self.provenance,
        }
    }

    pub fn with_provenance(self, key: String, value: String) -> (r: ReportContext)
        ensures
            r.runner_id == self.runner_id,
            r.environment == self.environment,
            r.provenance@ == self.provenance@.insert(key@, value@),
    {
        ReportContext {
            runner_id: self.runner_id,
            environment: self.environment,
            provenance: self.provenance.inserted(key, value),
        }
    }

    /// The context with the defaults of the machine filled in: its runner
    /// where the context names none, and its provenance under keys that the
    /// context does not have.
    pub fn resolved(self, default_runner_id: &str, default_provenance: &TextMap) -> (r:
        ReportContext)
        ensures
            r.runner_id@ == if text::blank(self.runner_id@) {
                default_runner_id@
            } else {
                self.runner_id@
            },
            r.environment == self.environment,
            r.provenance@ == default_provenance@.union_prefer_right(self.provenance@),
    {
        let runner_id = if text::is_blank(self.runner_id.as_str()) {
            default_runner_id.to_owned()
        } else {
            self.runner_id
        };
        let ghost supplied = self.provenance@;
        let entries = default_provenance.entries();
        let ghost pairs = default_provenance.pairs();
        let mut provenance = self.provenance;
        let mut i: usize = 0;
        assert(text_map::map_of(pairs.take(0)) =~= Map::empty());
        assert(Map::<Seq<char>, Seq<char>>::empty().union_prefer_right(supplied) =~= supplied);
        while i < entries.len()
            invariant
                i <= entries.len(),
                pairs == text_map::pairs_of(entries@),
                text_map::keys_increase(pairs),
                provenance@ == text_map::map_of(pairs.take(i as int)).union_prefer_right(supplied),
            decreases entries.len() - i,
        {
            let ghost done = text_map::map_of(pairs.take(i as int));
            proof {
                assert(pairs.take(i + 1).drop_last() =~= pairs.take(i as int));
                assert(pairs[i as int] == (entries@[i as int].0@, entries@[i as int].1@));
                text_map::key_is_new(pairs, i as int);
            }
            provenance = provenance.inserted_if_absent(
                entries[i].0.clone(),
                entries[i].1.clone(),
            );
            proof {
                assert(provenance@ =~= text_map::map_of(pairs.take(i + 1)).union_prefer_right(
                    supplied,
                ));
            }
            i += 1;
        }
        assert(pairs.take(pairs.len() as int) =~= pairs);
        ReportContext { runner_id, environment: self.environment, provenance }
    }

    /// What is wrong with the context, if anything: first in the environment,
    /// then in the provenance.
    pub open spec fn problem(&self) -> Option<Seq<char>> {
        let environment = map_problem("environment"@, self.environment.pairs(), 0);
        if environment is Some {
            environment
        } else {
            map_problem("provenance"@, self.provenance.pairs(), 0)
        }
    }

    pub fn validate(&self) -> (r: Result<(), ContextError>)
        ensures
            r is Ok == self.problem() is None,
            r matches Err(e) ==> e matches ContextError::Invalid { path, reason } && path is None
                && reason@ == self.problem()->0,
    {
        self.validate_at(None)
    }

    /// Accepts the context, or names the first problem and the file it is in.
    pub fn validate_at(&self, path: Option<&str>) -> (r: Result<(), ContextError>)
        ensures
            r is Ok == self.problem() is None,
            r matches Err(e) ==> e matches ContextError::Invalid { path: at, reason } && reason@
                == self.problem()->0 && at is Some == path is Some && (path matches Some(p)
                ==> at->0@ == p@),
    {
        let problem = match find_map_problem("environment", &self.environment) {
            Some(reason) => Some(reason),
            None => find_map_problem("provenance", &self.provenance),
        };
        match problem {
            Some(reason) => {
                let at = match path {
                    Some(p) => Some(p.to_owned()),
                    None => None,
                };
                Err(ContextError::Invalid { path: at, reason })
            },
            None => Ok(()),
        }
    }

    /// A copy.
    pub fn duplicate(&self) -> (r: ReportContext)
        ensures
            r.runner_id@ == self.runner_id@,
            r.environment@ == self.environment@,
            r.environment.pairs() == self.environment.pairs(),
            r.provenance@ == self.provenance@,
            r.provenance.pairs() == self.provenance.pairs(),
    {
        ReportContext {
            runner_id: self.runner_id.clone(),
            environment: self.environment.duplicate(),
            provenance: self.provenance.duplicate(),
        }
    }
}

/// What the caller supplied wins over the defaults, and no default is lost.
pub proof fn supplied_provenance_wins(
    supplied: Map<Seq<char>, Seq<char>>,
    defaults: Map<Seq<char>, Seq<char>>,
    key: Seq<char>,
)
    ensures
        supplied.contains_key(key) ==> defaults.union_prefer_right(supplied).contains_key(key)
            && defaults.union_prefer_right(supplied)[key] == supplied[key],
        !supplied.contains_key(key) && defaults.contains_key(key)
            ==> defaults.union_prefer_right(supplied).contains_key(key)
            && defaults.union_prefer_right(supplied)[key] == defaults[key],
{
}

} // verus!

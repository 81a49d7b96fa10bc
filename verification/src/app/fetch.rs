//! Fetching the lists of models from the providers, one after the other.

use vstd::prelude::*;
use crate::text::{concat2, copy_strings, decimal, list_has, push_decimal, texts};

verus! {

/// What is done with models that a provider no longer lists.
#[derive(Debug, Clone, Copy, PartialEq, Eq, Structural)]
pub enum OnUnlistedModels {
    Keep,
    Remove,
    Ask,
}

/// A provider with the ids of its models.
pub struct ProviderModels {
    pub id: String,
    pub models: Vec<String>,
    /// Its list was fetched in this run.
    pub fetched: bool,
}

#[verifier::ext_equal]
pub struct ProviderView {
    pub id: Seq<char>,
    pub models: Seq<Seq<char>>,
    pub fetched: bool,
}

impl View for ProviderModels {
    type V = ProviderView;

    open spec fn view(&self) -> ProviderView {
        ProviderView { id: self.id@, models: texts(self.models@), fetched: self.fetched }
    }
}

pub open spec fn provider_views(v: Seq<ProviderModels>) -> Seq<ProviderView> {
    v.map_values(|p: ProviderModels| p@)
}

/// What a provider answered.
pub enum ProviderOutcome {
    /// It could not be asked.
    Skipped(String),
    /// Its list.
    Models(Vec<String>),
    /// It has no list.
    Unsupported,
    Failed(String),
}

pub enum OutcomeOfProvider {
    Skipped(Seq<char>),
    Models(Seq<Seq<char>>),
    Unsupported,
    Failed(Seq<char>),
}

impl View for ProviderOutcome {
    type V = OutcomeOfProvider;

    open spec fn view(&self) -> OutcomeOfProvider {
        match self {
            ProviderOutcome::Skipped(e) => OutcomeOfProvider::Skipped(e@),
            ProviderOutcome::Models(m) => OutcomeOfProvider::Models(texts(m@)),
            ProviderOutcome::Unsupported => OutcomeOfProvider::Unsupported,
            ProviderOutcome::Failed(e) => OutcomeOfProvider::Failed(e@),
        }
    }
}

/// The configuration that a run starts from.
pub enum FetchConfig {
    Missing,
    Broken(String),
    Loaded { providers: Vec<ProviderModels>, policy: Option<OnUnlistedModels> },
}

/// A run over all providers.
pub struct FetchRun {
    pub providers: Vec<ProviderModels>,
    pub policy: OnUnlistedModels,
    /// The provider that is asked next.
    pub next: usize,
}

#[verifier::ext_equal]
pub struct FetchView {
    pub providers: Seq<ProviderView>,
    pub policy: OnUnlistedModels,
    pub next: int,
}

impl View for FetchRun {
    type V = FetchView;

    open spec fn view(&self) -> FetchView {
        FetchView {
            providers: provider_views(self.providers@),
            policy: self.policy,
            next: self.next as int,
        }
    }
}

/// The models of a provider after its list was fetched, by their ids: those of
/// the list, and where unlisted models are kept, the others that were there.
pub open spec fn merged_models(
    remote: Seq<Seq<char>>,
    before: Seq<Seq<char>>,
    policy: OnUnlistedModels,
) -> Seq<Seq<char>>
    decreases before.len(),
{
    if before.len() == 0 || !(policy is Keep) {
        remote
    } else {
        let rest = merged_models(remote, before.drop_last(), policy);
        if rest.contains(before.last()) {
            rest
        } else {
            rest.push(before.last())
        }
    }
}

/// Where unlisted models are kept, no model is lost, and the listed ones come
/// first.
pub proof fn kept_models_stay(remote: Seq<Seq<char>>, before: Seq<Seq<char>>, id: Seq<char>)
    ensures
        ({
            let all = merged_models(remote, before, OnUnlistedModels::Keep);
            &&& all.contains(id) <==> remote.contains(id) || before.contains(id)
            &&& remote.len() <= all.len()
            &&& forall|i: int| 0 <= i < remote.len() ==> all[i] == #[trigger] remote[i]
        }),
    decreases before.len(),
{
    if before.len() > 0 {
        kept_models_stay(remote, before.drop_last(), id);
        let rest = merged_models(remote, before.drop_last(), OnUnlistedModels::Keep);
        let all = merged_models(remote, before, OnUnlistedModels::Keep);
        let l = before.last();
        if before.contains(id) && !before.drop_last().contains(id) {
            let i = choose|i: int| 0 <= i < before.len() && before[i] == id;
            if i < before.len() - 1 {
                assert(before.drop_last()[i] == id);
            }
            assert(id == l);
        }
        if before.drop_last().contains(id) {
            let i = choose|i: int| 0 <= i < before.drop_last().len() && before.drop_last()[i] == id;
            assert(before[i] == id);
        }
        assert(before[before.len() - 1] == l);
        if !rest.contains(l) {
            assert(all == rest.push(l));
            if rest.contains(id) {
                let i = choose|i: int| 0 <= i < rest.len() && rest[i] == id;
                assert(all[i] == id);
            }
            assert(all[rest.len() as int] == l);
            if all.contains(id) && !rest.contains(id) {
                let i = choose|i: int| 0 <= i < all.len() && all[i] == id;
                if i < rest.len() {
                    assert(rest[i] == id);
                }
            }
        }
    }
}

/// The models of a provider after its list was fetched, by their ids.
pub fn merge_fetched_models(
    remote: &Vec<String>,
    before: &Vec<String>,
    policy: OnUnlistedModels,
) -> (r: Vec<String>)
    ensures
        texts(r@) == merged_models(texts(remote@), texts(before@), policy),
{
    let mut out: Vec<String> = copy_strings(remote);
    if !matches!(policy, OnUnlistedModels::Keep) {
        return out;
    }
    let ghost old_ids = texts(before@);
    let mut i: usize = 0;
    proof {
        assert(old_ids.take(0) =~= Seq::empty());
    }
    while i < before.len()
        invariant
            i <= before@.len() == old_ids.len(),
            old_ids == texts(before@),
            policy is Keep,
            texts(out@) == merged_models(texts(remote@), old_ids.take(i as int), policy),
        decreases before@.len() - i,
    {
        proof {
            assert(old_ids.take(i + 1).drop_last() =~= old_ids.take(i as int));
            assert(old_ids.take(i + 1).last() == before@[i as int]@);
        }
        if !list_has(&out, before[i].as_str()) {
            let ghost ids = texts(out@);
            out.push(before[i].clone());
            proof {
                assert(texts(out@) =~= ids.push(before@[i as int]@));
            }
        }
        i = i + 1;
    }
    proof {
        assert(old_ids.take(i as int) =~= old_ids);
    }
    out
}

// ---- A run ----------------------------------------------------------------

/// What is said of a provider's answer.
pub open spec fn outcome_line(id: Seq<char>, outcome: OutcomeOfProvider) -> Seq<char> {
    "/fetch-models: "@ + id + (match outcome {
        OutcomeOfProvider::Skipped(e) => " skipped — "@ + e,
        OutcomeOfProvider::Models(m) => " → "@ + decimal(m.len()) + " model(s)"@,
        OutcomeOfProvider::Unsupported => " has no /models endpoint"@,
        OutcomeOfProvider::Failed(e) => " failed: "@ + e,
    })
}

/// A provider after its answer: only a list changes its models.
pub open spec fn provider_after(
    p: ProviderView,
    outcome: OutcomeOfProvider,
    policy: OnUnlistedModels,
) -> ProviderView {
    match outcome {
        OutcomeOfProvider::Models(m) => ProviderView {
            models: merged_models(m, p.models, policy),
            fetched: true,
            ..p
        },
        _ => p,
    }
}

impl FetchView {
    /// The answer of the provider that was asked.
    pub open spec fn answered(self, outcome: OutcomeOfProvider) -> FetchView {
        FetchView {
            providers: self.providers.update(
                self.next,
                provider_after(self.providers[self.next], outcome, self.policy),
            ),
            next: self.next + 1,
            ..self
        }
    }
}

/// An answer without a list loses nothing: all models of all providers stay. An
/// answer with one changes only the provider that gave it.
pub proof fn answers_change_one_provider(v: FetchView, outcome: OutcomeOfProvider, i: int)
    requires
        0 <= v.next < v.providers.len(),
        0 <= i < v.providers.len(),
    ensures
        i != v.next ==> v.answered(outcome).providers[i] == v.providers[i],
        !(outcome is Models) ==> v.answered(outcome).providers[i] == v.providers[i],
        v.answered(outcome).providers[i].id == v.providers[i].id,
{
}

/// How a run starts: over the configured providers, or not at all, with what is
/// said then. Without a setting, unlisted models are kept.
pub open spec fn fetch_started(config: FetchConfig) -> Result<FetchView, Seq<char>> {
    match config {
        FetchConfig::Missing => Err(
            "/fetch-models: no cockpit config — run /settings to create one"@,
        ),
        FetchConfig::Broken(e) => Err("/fetch-models: config load failed: "@ + e@),
        FetchConfig::Loaded { providers, policy } => if providers@.len() == 0 {
            Err("/fetch-models: no providers configured"@)
        } else {
            Ok(
                FetchView {
                    providers: provider_views(providers@),
                    policy: match policy {
                        Some(p) => p,
                        None => OnUnlistedModels::Keep,
                    },
                    next: 0,
                },
            )
        },
    }
}

impl FetchRun {
    /// Start a run, or say why there is none.
    pub fn start(config: FetchConfig) -> (r: Result<FetchRun, String>)
        ensures
            match r {
                Ok(run) => fetch_started(config) == Ok::<FetchView, Seq<char>>(run@),
                Err(line) => fetch_started(config) == Err::<FetchView, Seq<char>>(line@),
            },
    {
        match config {
            FetchConfig::Missing => Err(
                String::from_str("/fetch-models: no cockpit config — run /settings to create one"),
            ),
            FetchConfig::Broken(e) => Err(
                concat2("/fetch-models: config load failed: ", e.as_str()),
            ),
            FetchConfig::Loaded { providers, policy } => if providers.len() == 0 {
                Err(String::from_str("/fetch-models: no providers configured"))
            } else {
                Ok(
                    FetchRun {
                        providers,
                        policy: match policy {
                            Some(p) => p,
                            None => OnUnlistedModels::Keep,
                        },
                        next: 0,
                    },
                )
            },
        }
    }

    /// The provider that is asked next, or `None` at the end.
    pub fn pending(&self) -> (r: Option<&String>)
        ensures
            match r {
                Some(id) => self@.next < self@.providers.len() && id@
                    == self@.providers[self@.next].id,
                None => self@.next >= self@.providers.len(),
            },
    {
        if self.next < self.providers.len() {
            Some(&self.providers[self.next].id)
        } else {
            None
        }
    }

    /// Take the answer of the provider that was asked. Returns what is said of
    /// it.
    pub fn answer(&mut self, outcome: ProviderOutcome) -> (r: String)
        requires
            old(self)@.next < old(self)@.providers.len(),
        ensures
            final(self)@ == old(self)@.answered(outcome@),
            r@ == outcome_line(old(self)@.providers[old(self)@.next].id, outcome@),
    {
        let ghost v = self@;
        let i: usize = self.next;
        let n: usize = self.providers.len();
        proof {
            assert(i < n);
        }
        let mut line: String = concat2("/fetch-models: ", self.providers[i].id.as_str());
        match outcome {
            ProviderOutcome::Skipped(e) => {
                let tail: String = concat2(" skipped — ", e.as_str());
                line.append(tail.as_str());
                proof {
                    assert(v.providers.update(i as int, v.providers[i as int]) =~= v.providers);
                }
            },
            ProviderOutcome::Models(remote) => {
                let mut tail: String = String::from_str(" → ");
                push_decimal(&mut tail, remote.len() as u64);
                tail.append(" model(s)");
                line.append(tail.as_str());
                proof {
                    assert(texts(remote@).len() == remote@.len());
                }
                let models: Vec<String> = merge_fetched_models(
                    &remote,
                    &self.providers[i].models,
                    self.policy,
                );
                let id: String = self.providers[i].id.clone();
                self.providers.set(i, ProviderModels { id, models, fetched: true });
            },
            ProviderOutcome::Unsupported => {
                line.append(" has no /models endpoint");
                proof {
                    assert(v.providers.update(i as int, v.providers[i as int]) =~= v.providers);
                }
            },
            ProviderOutcome::Failed(e) => {
                let tail: String = concat2(" failed: ", e.as_str());
                line.append(tail.as_str());
                proof {
                    assert(v.providers.update(i as int, v.providers[i as int]) =~= v.providers);
                }
            },
        }
        self.next = i + 1;
        proof {
            assert(self@ =~= v.answered(outcome@));
        }
        line
    }
}

/// What is said at the end of a run.
pub fn fetch_end_line(written: &Result<(), String>) -> (r: String)
    ensures
        r@ == match written {
            Ok(_) => "/fetch-models: done"@,
            Err(e) => "/fetch-models: write failed: "@ + e@,
        },
{
    match written {
        Ok(_) => String::from_str("/fetch-models: done"),
        Err(e) => concat2("/fetch-models: write failed: ", e.as_str()),
    }
}

} // verus!

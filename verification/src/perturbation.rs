//! Perturbation events: which vessel an event acts on and what it changes.
//!
//! An event names its vessel; it acts on the first vessel of the fleet with
//! that name, and on none (changing nothing) when no vessel has it. The numeric
//! part of each change (the mass delta, the position or velocity offsets) is
//! carried out by the caller as the effect directs.

use vstd::prelude::*;
use crate::fleet::{
    VesselShape, vessel_names, string_views, is_first_match, kept_indices, as_ints, find_vessel,
    kept_repos, names_after_removal, lemma_removal_leaves_no_named, lemma_kept_indices_exact,
};

verus! {

/// A perturbation of the fleet, as far as its structure goes.
pub enum PerturbationEvent {
    /// A repository named `repo_name` joins the vessel `vessel_name`, whose
    /// mass grows.
    RepoAdded { vessel_name: String, repo_name: String },
    /// Every repository named `repo_name` leaves, and the vessel `vessel_name`
    /// loses mass.
    RepoRemoved { vessel_name: String, repo_name: String },
    /// The position of `vessel_name` moves by an offset of `delta_dims`
    /// components.
    DependencyShift { vessel_name: String, delta_dims: usize },
    /// The velocity of `vessel_name` changes by an offset of `delta_dims`
    /// components.
    VelocityKick { vessel_name: String, delta_dims: usize },
}

/// What an applied perturbation does; `vessel` is the index of the vessel it
/// acts on.
pub enum Effect {
    /// The vessel gains mass and a repository named `repo_name`, orbiting
    /// that vessel, is appended.
    AddRepo { vessel: usize, repo_name: String },
    /// The vessel loses mass; the repositories at `kept_repos` remain, in
    /// that order, and no others.
    RemoveRepos { vessel: usize, kept_repos: Vec<usize> },
    /// The first `components` position components of the vessel are offset.
    ShiftPosition { vessel: usize, components: usize },
    /// The first `components` velocity components of the vessel are offset.
    KickVelocity { vessel: usize, components: usize },
}

pub open spec fn min_usize(a: usize, b: usize) -> usize {
    if a <= b {
        a
    } else {
        b
    }
}

impl PerturbationEvent {
    /// The name of the vessel the event is about.
    pub open spec fn target(&self) -> Seq<char> {
        match self {
            PerturbationEvent::RepoAdded { vessel_name, .. } => vessel_name@,
            PerturbationEvent::RepoRemoved { vessel_name, .. } => vessel_name@,
            PerturbationEvent::DependencyShift { vessel_name, .. } => vessel_name@,
            PerturbationEvent::VelocityKick { vessel_name, .. } => vessel_name@,
        }
    }

    /// `e` is what this event does to a fleet with vessels `vessels` and
    /// repositories named `repos`.
    pub open spec fn is_effect(
        &self,
        e: Effect,
        vessels: Seq<VesselShape>,
        repos: Seq<Seq<char>>,
    ) -> bool {
        match self {
            PerturbationEvent::RepoAdded { vessel_name, repo_name } => match e {
                Effect::AddRepo { vessel, repo_name: added } => {
                    &&& is_first_match(vessel_names(vessels), vessel_name@, vessel as int)
                    &&& added@ == repo_name@
                },
                _ => false,
            },
            PerturbationEvent::RepoRemoved { vessel_name, repo_name } => match e {
                Effect::RemoveRepos { vessel, kept_repos } => {
                    &&& is_first_match(vessel_names(vessels), vessel_name@, vessel as int)
                    &&& as_ints(kept_repos@) == kept_indices(repos, repo_name@)
                },
                _ => false,
            },
            PerturbationEvent::DependencyShift { vessel_name, delta_dims } => match e {
                Effect::ShiftPosition { vessel, components } => {
                    &&& is_first_match(vessel_names(vessels), vessel_name@, vessel as int)
                    &&& components == min_usize(vessels[vessel as int].position_dims, *delta_dims)
                },
                _ => false,
            },
            PerturbationEvent::VelocityKick { vessel_name, delta_dims } => match e {
                Effect::KickVelocity { vessel, components } => {
                    &&& is_first_match(vessel_names(vessels), vessel_name@, vessel as int)
                    &&& components == min_usize(vessels[vessel as int].velocity_dims, *delta_dims)
                },
                _ => false,
            },
        }
    }

    /// The name of the vessel the event is about.
    pub fn vessel_name(&self) -> (r: &String)
        ensures
            r@ == self.target(),
    {
        match self {
            PerturbationEvent::RepoAdded { vessel_name, .. } => vessel_name,
            PerturbationEvent::RepoRemoved { vessel_name, .. } => vessel_name,
            PerturbationEvent::DependencyShift { vessel_name, .. } => vessel_name,
            PerturbationEvent::VelocityKick { vessel_name, .. } => vessel_name,
        }
    }

    /// What this event does to a fleet with vessels `vessels` and
    /// repositories named `repo_names`: `None`, changing nothing, exactly when
    /// no vessel carries the event's vessel name; otherwise the effect on the
    /// first vessel that does.
    pub fn plan(&self, vessels: &Vec<VesselShape>, repo_names: &Vec<String>) -> (r: Option<Effect>)
        ensures
            r is None <==> !vessel_names(vessels@).contains(self.target()),
            r matches Some(e) ==> self.is_effect(e, vessels@, string_views(repo_names@)),
    {
        let found = find_vessel(vessels, self.vessel_name());
        match found {
            None => None,
            Some(vessel) => match self {
                PerturbationEvent::RepoAdded { repo_name, .. } => Some(
                    Effect::AddRepo { vessel, repo_name: repo_name.clone() },
                ),
                PerturbationEvent::RepoRemoved { repo_name, .. } => Some(
                    Effect::RemoveRepos { vessel, kept_repos: kept_repos(repo_names, repo_name) },
                ),
                PerturbationEvent::DependencyShift { delta_dims, .. } => {
                    let dims = vessels[vessel].position_dims;
                    let components = if dims <= *delta_dims {
                        dims
                    } else {
                        *delta_dims
                    };
                    Some(Effect::ShiftPosition { vessel, components })
                },
                PerturbationEvent::VelocityKick { delta_dims, .. } => {
                    let dims = vessels[vessel].velocity_dims;
                    let components = if dims <= *delta_dims {
                        dims
                    } else {
                        *delta_dims
                    };
                    Some(Effect::KickVelocity { vessel, components })
                },
            },
        }
    }
}

/// The names of the repositories after effect `e` is carried out on
/// repositories named `repos`.
pub open spec fn repo_names_after(e: Effect, repos: Seq<Seq<char>>) -> Seq<Seq<char>> {
    match e {
        Effect::AddRepo { repo_name, .. } => repos.push(repo_name@),
        Effect::RemoveRepos { kept_repos, .. } => as_ints(kept_repos@).map_values(|i: int| repos[i]),
        _ => repos,
    }
}

/// A planned effect has the kind of its event and acts on the first vessel
/// whose name is the event's vessel name. An addition carries the event's
/// repository name; a removal keeps, in increasing order, exactly the
/// repositories whose name differs from the removed one; a shift or a kick
/// offsets as many components as both the vessel's vector and the offset have
/// (all of them when the two lengths agree).
pub proof fn lemma_plan_acts_on_first_named_vessel(
    event: PerturbationEvent,
    e: Effect,
    vessels: Seq<VesselShape>,
    repos: Seq<Seq<char>>,
)
    requires
        event.is_effect(e, vessels, repos),
    ensures
        event matches PerturbationEvent::RepoAdded { vessel_name, repo_name } ==> {
            &&& e matches Effect::AddRepo { vessel, repo_name: added }
            &&& vessel < vessels.len()
            &&& vessels[vessel as int].name@ == vessel_name@
            &&& forall|j: int| 0 <= j < vessel ==> #[trigger] vessels[j].name@ != vessel_name@
            &&& added@ == repo_name@
        },
        event matches PerturbationEvent::RepoRemoved { vessel_name, repo_name } ==> {
            &&& e matches Effect::RemoveRepos { vessel, kept_repos }
            &&& vessel < vessels.len()
            &&& vessels[vessel as int].name@ == vessel_name@
            &&& forall|j: int| 0 <= j < vessel ==> #[trigger] vessels[j].name@ != vessel_name@
            &&& forall|k: int|
                0 <= k < kept_repos@.len() ==> {
                    &&& #[trigger] kept_repos@[k] < repos.len()
                    &&& repos[kept_repos@[k] as int] != repo_name@
                }
            &&& forall|k1: int, k2: int|
                0 <= k1 < k2 < kept_repos@.len() ==> #[trigger] kept_repos@[k1]
                    < #[trigger] kept_repos@[k2]
            &&& forall|j: int|
                0 <= j < repos.len() && #[trigger] repos[j] != repo_name@ ==> exists|k: int|
                    0 <= k < kept_repos@.len() && kept_repos@[k] == j
        },
        event matches PerturbationEvent::DependencyShift { vessel_name, delta_dims } ==> {
            &&& e matches Effect::ShiftPosition { vessel, components }
            &&& vessel < vessels.len()
            &&& vessels[vessel as int].name@ == vessel_name@
            &&& forall|j: int| 0 <= j < vessel ==> #[trigger] vessels[j].name@ != vessel_name@
            &&& components <= delta_dims
            &&& components <= vessels[vessel as int].position_dims
            &&& (components == delta_dims || components == vessels[vessel as int].position_dims)
        },
        event matches PerturbationEvent::VelocityKick { vessel_name, delta_dims } ==> {
            &&& e matches Effect::KickVelocity { vessel, components }
            &&& vessel < vessels.len()
            &&& vessels[vessel as int].name@ == vessel_name@
            &&& forall|j: int| 0 <= j < vessel ==> #[trigger] vessels[j].name@ != vessel_name@
            &&& components <= delta_dims
            &&& components <= vessels[vessel as int].velocity_dims
            &&& (components == delta_dims || components == vessels[vessel as int].velocity_dims)
        },
{
    let names = vessel_names(vessels);
    match event {
        PerturbationEvent::RepoRemoved { vessel_name, repo_name } => {
            match e {
                Effect::RemoveRepos { vessel, kept_repos } => {
                    assert(names[vessel as int] == vessels[vessel as int].name@);
                    assert forall|j: int| 0 <= j < vessel implies #[trigger] vessels[j].name@
                        != vessel_name@ by {
                        assert(names[j] == vessels[j].name@);
                    }
                    let ki = kept_indices(repos, repo_name@);
                    lemma_kept_indices_exact(repos, repo_name@);
                    assert forall|k: int| 0 <= k < kept_repos@.len() implies {
                        &&& #[trigger] kept_repos@[k] < repos.len()
                        &&& repos[kept_repos@[k] as int] != repo_name@
                    } by {
                        assert(as_ints(kept_repos@)[k] == ki[k]);
                    }
                    assert forall|k1: int, k2: int|
                        0 <= k1 < k2 < kept_repos@.len() implies #[trigger] kept_repos@[k1]
                        < #[trigger] kept_repos@[k2] by {
                        assert(as_ints(kept_repos@)[k1] == ki[k1]);
                        assert(as_ints(kept_repos@)[k2] == ki[k2]);
                    }
                    assert forall|j: int|
                        0 <= j < repos.len() && #[trigger] repos[j] != repo_name@ implies exists|k: int|
                        0 <= k < kept_repos@.len() && kept_repos@[k] == j by {
                        assert(ki.contains(j));
                        let w = choose|w: int| 0 <= w < ki.len() && ki[w] == j;
                        assert(as_ints(kept_repos@)[w] == ki[w]);
                    }
                },
                _ => {},
            }
        },
        _ => {
            match e {
                Effect::AddRepo { vessel, .. } | Effect::ShiftPosition { vessel, .. } | Effect::KickVelocity {
                    vessel,
                    ..
                } => {
                    assert(names[vessel as int] == vessels[vessel as int].name@);
                    assert forall|j: int| 0 <= j < vessel implies #[trigger] vessels[j].name@
                        != event.target() by {
                        assert(names[j] == vessels[j].name@);
                    }
                },
                _ => {},
            }
        },
    }
}

/// What a planned perturbation does to the repositories: an addition appends
/// exactly one repository, carrying the event's repository name; a removal
/// leaves no repository of the removed name and keeps every other one; a
/// shift or a kick leaves them as they were.
pub proof fn lemma_plan_repo_names(
    event: PerturbationEvent,
    e: Effect,
    vessels: Seq<VesselShape>,
    repos: Seq<Seq<char>>,
)
    requires
        event.is_effect(e, vessels, repos),
    ensures
        event matches PerturbationEvent::RepoAdded { repo_name, .. } ==> {
            &&& repo_names_after(e, repos).len() == repos.len() + 1
            &&& repo_names_after(e, repos).last() == repo_name@
            &&& repo_names_after(e, repos).drop_last() == repos
        },
        event matches PerturbationEvent::RepoRemoved { repo_name, .. } ==> {
            &&& repo_names_after(e, repos) == names_after_removal(repos, repo_name@)
            &&& !repo_names_after(e, repos).contains(repo_name@)
            &&& forall|j: int|
                0 <= j < repos.len() && repos[j] != repo_name@ ==> repo_names_after(
                    e,
                    repos,
                ).contains(#[trigger] repos[j])
        },
        event is DependencyShift || event is VelocityKick ==> repo_names_after(e, repos) == repos,
{
    match event {
        PerturbationEvent::RepoAdded { .. } => {
            assert(repo_names_after(e, repos).drop_last() =~= repos);
        },
        PerturbationEvent::RepoRemoved { repo_name, .. } => {
            let after = repo_names_after(e, repos);
            assert(after =~= names_after_removal(repos, repo_name@));
            lemma_removal_leaves_no_named(repos, repo_name@);
            lemma_kept_indices_exact(repos, repo_name@);
            assert forall|j: int|
                0 <= j < repos.len() && repos[j] != repo_name@ implies after.contains(
                #[trigger] repos[j],
            ) by {
                let k = kept_indices(repos, repo_name@);
                assert(k.contains(j));
                let w = choose|w: int| 0 <= w < k.len() && k[w] == j;
                assert(after[w] == repos[j]);
            }
        },
        _ => {},
    }
}

} // verus!

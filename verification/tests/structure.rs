use vessel_constellation::fleet::{find_vessel, kept_repos, VesselShape};
use vessel_constellation::integration::step_widths;
use vessel_constellation::perturbation::{Effect, PerturbationEvent};
use vessel_constellation::vector::padded_xyz;

fn shape(name: &str, position_dims: usize, velocity_dims: usize) -> VesselShape {
    VesselShape { name: name.to_string(), position_dims, velocity_dims }
}

fn names(list: &[&str]) -> Vec<String> {
    list.iter().map(|s| s.to_string()).collect()
}

#[test]
fn padded_two_components_get_zero_z() {
    assert_eq!(padded_xyz(&[1.5f64, -2.0], 0.0), (1.5, -2.0, 0.0));
}

#[test]
fn padded_three_components_unchanged() {
    assert_eq!(padded_xyz(&[1.0f64, 2.0, 3.0], 0.0), (1.0, 2.0, 3.0));
}

#[test]
fn padded_short_and_long_vectors() {
    assert_eq!(padded_xyz::<f64>(&[], 0.0), (0.0, 0.0, 0.0));
    assert_eq!(padded_xyz(&[7.0f64], 0.0), (7.0, 0.0, 0.0));
    assert_eq!(padded_xyz(&[1.0f64, 2.0, 3.0, 4.0], 0.0), (1.0, 2.0, 3.0));
    assert_eq!(padded_xyz(&[4u8, 5], 9), (4, 5, 9));
}

#[test]
fn find_vessel_returns_first_with_name() {
    let fleet = vec![shape("Forgemaster", 2, 2), shape("CCC", 2, 2), shape("CCC", 3, 3)];
    assert_eq!(find_vessel(&fleet, &"CCC".to_string()), Some(1));
    assert_eq!(find_vessel(&fleet, &"Forgemaster".to_string()), Some(0));
    assert_eq!(find_vessel(&fleet, &"Oracle".to_string()), None);
    assert_eq!(find_vessel(&Vec::new(), &"Oracle".to_string()), None);
}

#[test]
fn kept_repos_drops_every_named_repo_in_order() {
    let repos = names(&["a", "old-lib", "b", "old-lib", "c"]);
    assert_eq!(kept_repos(&repos, &"old-lib".to_string()), vec![0, 2, 4]);
    assert_eq!(kept_repos(&repos, &"zzz".to_string()), vec![0, 1, 2, 3, 4]);
    assert_eq!(kept_repos(&names(&["x", "x"]), &"x".to_string()), Vec::<usize>::new());
}

#[test]
fn perturbation_on_missing_vessel_fails() {
    let vessels = vec![shape("A", 2, 2)];
    let repos: Vec<String> = Vec::new();
    let p = PerturbationEvent::RepoAdded { vessel_name: "Z".into(), repo_name: "x".into() };
    assert!(p.plan(&vessels, &repos).is_none());
}

#[test]
fn repo_added_targets_named_vessel() {
    let vessels = vec![shape("Oracle", 2, 2), shape("Forgemaster", 2, 2)];
    let p = PerturbationEvent::RepoAdded { vessel_name: "Forgemaster".into(), repo_name: "new-lib".into() };
    match p.plan(&vessels, &Vec::new()) {
        Some(Effect::AddRepo { vessel, repo_name }) => {
            assert_eq!(vessel, 1);
            assert_eq!(repo_name, "new-lib");
        }
        _ => panic!("the addition should apply"),
    }
}

#[test]
fn repo_removed_leaves_no_repo_of_that_name() {
    let vessels = vec![shape("CCC", 2, 2)];
    let repos = names(&["old-lib"]);
    let p = PerturbationEvent::RepoRemoved { vessel_name: "CCC".into(), repo_name: "old-lib".into() };
    match p.plan(&vessels, &repos) {
        Some(Effect::RemoveRepos { vessel, kept_repos }) => {
            assert_eq!(vessel, 0);
            assert!(kept_repos.is_empty());
        }
        _ => panic!("the removal should apply"),
    }
}

#[test]
fn removing_twice_keeps_what_the_first_removal_kept() {
    let repos = names(&["core", "util", "core", "docs"]);
    let first = kept_repos(&repos, &"core".to_string());
    let after: Vec<String> = first.iter().map(|&i| repos[i].clone()).collect();
    assert_eq!(after, names(&["util", "docs"]));
    let second = kept_repos(&after, &"core".to_string());
    assert_eq!(second, vec![0, 1]);
}

#[test]
fn dependency_shift_touches_common_components() {
    let vessels = vec![shape("JetsonClaw1", 2, 2)];
    let p = PerturbationEvent::DependencyShift { vessel_name: "JetsonClaw1".into(), delta_dims: 3 };
    assert!(matches!(p.plan(&vessels, &Vec::new()), Some(Effect::ShiftPosition { vessel: 0, components: 2 })));
    let q = PerturbationEvent::DependencyShift { vessel_name: "JetsonClaw1".into(), delta_dims: 1 };
    assert!(matches!(q.plan(&vessels, &Vec::new()), Some(Effect::ShiftPosition { vessel: 0, components: 1 })));
}

#[test]
fn velocity_kick_uses_velocity_components() {
    let vessels = vec![shape("A", 2, 2), shape("Oracle", 3, 1)];
    let p = PerturbationEvent::VelocityKick { vessel_name: "Oracle".into(), delta_dims: 2 };
    assert!(matches!(p.plan(&vessels, &Vec::new()), Some(Effect::KickVelocity { vessel: 1, components: 1 })));
}

#[test]
fn step_widths_follow_first_vessel_dimension() {
    let fleet = vec![shape("A", 2, 2), shape("B", 3, 3), shape("C", 1, 2)];
    let w = step_widths(&fleet);
    assert_eq!(w.len(), 3);
    assert_eq!((w[0].kick, w[0].drift), (2, 2));
    assert_eq!((w[1].kick, w[1].drift), (2, 2));
    assert_eq!((w[2].kick, w[2].drift), (2, 1));
    assert!(step_widths(&Vec::new()).is_empty());
}

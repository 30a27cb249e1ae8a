use netconomy_cube::cube::element::ElementType;
use netconomy_cube::cube::NetconomyCube;
use netconomy_cube::cube::DOF_PER_CORNER;
use netconomy_cube::vecs::{ivec2, ivec3, IVec2, IVec3};

/// The encoding of the physical 27-segment puzzle used by the program.
const PUZZLE: &str = "scscscsccccscscccsccscccs";

fn built(encoding: &str) -> NetconomyCube {
    NetconomyCube::from_cube_string(String::from(encoding))
}

#[test]
fn chain_length_matches_encoding() {
    let cube = built(PUZZLE);
    assert_eq!(cube.elements.len(), PUZZLE.len() + 2);
    assert_eq!(cube.corner_count(), PUZZLE.chars().filter(|c| *c == 'c').count());

    let cube = built("s");
    assert_eq!(cube.elements.len(), 3);
    assert_eq!(cube.corner_count(), 0);

    let cube = built("ssccss");
    assert_eq!(cube.elements.len(), 8);
    assert_eq!(cube.corner_count(), 2);
}

#[test]
fn element_kinds_follow_encoding() {
    let cube = built("sccs");
    assert_eq!(cube.elements[0].kind, ElementType::Straight);
    assert_eq!(cube.elements[1].kind, ElementType::Straight);
    assert_eq!(cube.elements[2].kind, ElementType::Corner);
    assert_eq!(cube.elements[3].kind, ElementType::Corner);
    assert_eq!(cube.elements[4].kind, ElementType::Straight);
    assert_eq!(cube.elements[5].kind, ElementType::Straight);
    assert_eq!(cube.corner(0).kind, ElementType::Corner);
    assert_eq!(cube.corner(1).kind, ElementType::Corner);
}

#[test]
fn initial_state_after_construction() {
    let cube = built("scc");
    assert_eq!(cube._algo_state.cursor, 1);
    assert_eq!(cube._bounding_cuboid, ivec3(1, 1, 1));
    assert_eq!(cube.elements[0]._position, Some(ivec3(0, 0, 0)));
    assert_eq!(cube.elements[0]._direction, Some(ivec3(1, 0, 0)));
    for i in 1..cube.elements.len() {
        assert_eq!(cube.elements[i]._position, None);
        assert_eq!(cube.elements[i]._direction, None);
    }
    for ci in 0..cube.corner_count() {
        assert_eq!(cube.corner(ci).corner_orientation, Some(ivec2(1, 0)));
    }
    assert_eq!(cube._moduli, vec![1usize, 4]);
    assert_eq!(DOF_PER_CORNER, 4);
}

#[test]
fn scenario_single_straight() {
    let mut cube = built("s");
    cube.compute_positions();
    assert_eq!(cube.elements[0]._position, Some(ivec3(0, 0, 0)));
    assert_eq!(cube.elements[0]._direction, Some(ivec3(1, 0, 0)));
    assert_eq!(cube.elements[1]._position, Some(ivec3(1, 0, 0)));
    assert_eq!(cube.elements[1]._direction, Some(ivec3(1, 0, 0)));
    assert_eq!(cube.elements[2]._position, Some(ivec3(2, 0, 0)));
    assert!(!cube.check_overlaps());
    assert_eq!(cube._bounding_cuboid, ivec3(3, 1, 1));
    assert_eq!(cube.n_bounding_cuboid(3), ivec3(3, 1, 1));
}

#[test]
fn scenario_single_corner() {
    let mut cube = built("c");
    cube.compute_positions();
    // hinge (1, 0): direction = 1*(0,1,0) + 0*cross((1,0,0),(0,1,0)) = (0,1,0)
    assert_eq!(cube.elements[1]._position, Some(ivec3(1, 0, 0)));
    assert_eq!(cube.elements[1]._direction, Some(ivec3(0, 1, 0)));
    assert_eq!(cube.elements[2]._position, Some(ivec3(1, 1, 0)));
    assert_eq!(cube._bounding_cuboid, ivec3(2, 2, 1));

    // one rotation: hinge (1,0) -> (0,-1); direction = -cross((1,0,0),(0,1,0)) = (0,0,-1)
    cube.rotate_corner(0);
    assert_eq!(cube.corner(0).corner_orientation, Some(ivec2(0, -1)));
    cube.compute_positions();
    assert_eq!(cube.elements[1]._direction, Some(ivec3(0, 0, -1)));
    assert_eq!(cube.elements[2]._position, Some(ivec3(1, 0, -1)));
    assert_eq!(cube._bounding_cuboid, ivec3(2, 1, 2));
}

#[test]
fn adjacency_holds_after_compute() {
    let mut cube = built("scscscscccc");
    cube.compute_positions();
    check_adjacency(&cube);
    // still holds after arbitrary hinge mutations plus recompute
    cube.rotate_corner(2);
    cube.rotate_corner(4);
    cube.rotate_corner(4);
    cube.compute_positions();
    check_adjacency(&cube);
}

fn check_adjacency(cube: &NetconomyCube) {
    for i in 1..cube.elements.len() {
        let p = cube.elements[i]._position.unwrap();
        let q = cube.elements[i - 1]._position.unwrap();
        let d = cube.elements[i - 1]._direction.unwrap();
        assert_eq!(p, ivec3(q.x + d.x, q.y + d.y, q.z + d.z));
    }
}

#[test]
fn hinge_cycle_of_four() {
    let mut cube = built("c");
    let canonical = [ivec2(1, 0), ivec2(0, -1), ivec2(-1, 0), ivec2(0, 1)];
    let start = cube.corner(0).corner_orientation.unwrap();
    for turn in 0..4 {
        let h = cube.corner(0).corner_orientation.unwrap();
        assert_eq!(h, canonical[turn]);
        assert!(canonical.contains(&h));
        cube.rotate_corner(0);
    }
    assert_eq!(cube.corner(0).corner_orientation.unwrap(), start);
}

#[test]
fn recompute_is_deterministic() {
    let mut cube = built("scscscscccc");
    cube.compute_positions();
    let first: Vec<Option<IVec3>> = cube.elements.iter().map(|e| e._position).collect();
    let overlap_first = cube.check_overlaps();
    let bounding_first = cube._bounding_cuboid;
    cube.compute_positions();
    let second: Vec<Option<IVec3>> = cube.elements.iter().map(|e| e._position).collect();
    assert_eq!(first, second);
    assert_eq!(cube.check_overlaps(), overlap_first);
    assert_eq!(cube._bounding_cuboid, bounding_first);
}

fn hinges_of(cube: &NetconomyCube) -> Vec<IVec2> {
    (0..cube.corner_count()).map(|ci| cube.corner(ci).corner_orientation.unwrap()).collect()
}

#[test]
fn search_full_period_and_distinct_states() {
    // 3 corners: one full sweep is 4^(3-1) = 16 calls
    let mut cube = built("ccc");
    cube.compute_positions();
    let initial = hinges_of(&cube);
    let mut seen: Vec<Vec<IVec2>> = vec![initial.clone()];
    for step in 1..=16 {
        cube.rotate_one();
        assert_eq!(cube._algo_state.cursor, 1 + step);
        let state = hinges_of(&cube);
        if step < 16 {
            assert!(!seen.contains(&state), "state revisited at step {}", step);
            seen.push(state);
        } else {
            assert_eq!(state, initial);
        }
    }
    // the first corner is never rotated by the driver
    assert_eq!(cube.corner(0).corner_orientation.unwrap(), ivec2(1, 0));
}

#[test]
fn bounding_cuboid_monotonic_in_prefix() {
    let mut cube = built("scscscscccc");
    cube.compute_positions();
    let len = cube.elements.len();
    let mut prev = cube.n_bounding_cuboid(1);
    assert_eq!(prev, ivec3(1, 1, 1));
    for n in 2..=len {
        let next = cube.n_bounding_cuboid(n);
        assert!(prev.x <= next.x && prev.y <= next.y && prev.z <= next.z);
        prev = next;
    }
    assert_eq!(prev, cube._bounding_cuboid);
}

#[test]
fn overlap_detected_when_chain_walks_back() {
    let mut cube = built("ccc");
    cube.compute_positions();
    assert!(!cube.check_overlaps());
    // half-turns on the last two corners fold the chain back onto its anchor
    cube.rotate_corner(1);
    cube.rotate_corner(1);
    cube.rotate_corner(2);
    cube.rotate_corner(2);
    cube.compute_positions();
    assert_eq!(cube.elements[4]._position, Some(ivec3(0, 0, 0)));
    assert!(cube.check_overlaps());
}

#[test]
fn moduli_are_powers_of_four() {
    let cube = built(PUZZLE);
    assert_eq!(cube._moduli.len(), 16);
    for (i, m) in cube._moduli.iter().enumerate() {
        assert_eq!(*m, 4usize.pow(i as u32));
    }
}

#[test]
fn rotate_one_solves_small_chain() {
    let mut cube = built("scscscscccc");
    cube.compute_positions();
    let mut steps = 0u64;
    loop {
        cube.rotate_one();
        steps += 1;
        if cube._bounding_cuboid == ivec3(3, 3, 3) && !cube.check_overlaps() {
            break;
        }
        assert!(steps < 5000, "no solution found within the expected range");
    }
    assert_eq!(steps, 1708);
    assert_eq!(cube._algo_state.cursor, 1709);
}

#[test]
fn snake_cube_solution_within_one_period() {
    let mut cube = built(PUZZLE);
    cube.compute_positions();
    // a solved fold, given as quarter-turns per corner relative to the
    // initial hinge states; the first corner stays untouched, so the
    // configuration is reachable by the search driver
    let turns: [u32; 16] = [0, 2, 1, 2, 2, 0, 1, 2, 3, 1, 2, 3, 2, 1, 1, 2];
    for (ci, t) in turns.iter().enumerate() {
        for _ in 0..*t {
            cube.rotate_corner(ci);
        }
    }
    cube.compute_positions();
    assert_eq!(cube._bounding_cuboid, ivec3(3, 3, 3));
    assert!(!cube.check_overlaps());

    // the corresponding counter value lies within one full sweep
    let corners = turns.len() as u32;
    let counter: u64 =
        turns.iter().enumerate().skip(1).map(|(ci, t)| (*t as u64) * 4u64.pow(corners - 1 - ci as u32)).sum();
    assert_eq!(counter, 646372246);
    assert!(counter < 4u64.pow(corners - 1));
}

#[test]
fn fold_in_preserves_chain_shape() {
    let mut cube = built("scscscscccc");
    cube.compute_positions();
    let kinds: Vec<ElementType> = cube.elements.iter().map(|e| e.kind).collect();
    let cursor = cube._algo_state.cursor;
    cube.fold_in();
    let kinds_after: Vec<ElementType> = cube.elements.iter().map(|e| e.kind).collect();
    assert_eq!(kinds, kinds_after);
    assert_eq!(cube._algo_state.cursor, cursor);
    assert_eq!(cube.corner_count(), 7);
    check_adjacency(&cube);
}

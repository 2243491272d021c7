use turing::Movement as M;
use turing::Rule;
use turing::Turing;
use turing::TuringComplete;

/// The observable state of a machine: control state, head index, tape storage.
fn snapshot(machine: &Turing) -> (u64, usize, Vec<u64>) {
    (machine.state(), machine.head(), machine.tape().clone())
}

#[test]
fn new_machine_starts_on_one_blank_cell() {
    let machine = Turing::new(42, vec![]);
    assert_eq!(machine.state(), 42);
    assert_eq!(machine.head(), 0);
    assert_eq!(*machine.tape(), vec![0]);
}

#[test]
fn scenario_increment_writes_then_runs_on() {
    // One rule: on (state 0, symbol 0) write 1, move right, stay in state 0.
    let rules: Vec<Rule> = vec![((0, 0), (1, M::Right, 0))];
    let mut machine = Turing::new(0, rules);
    for _ in 0..4 {
        machine.step();
    }
    // Logical positions 0..3 (storage indices 0, 2, 4, 6) now hold symbol 1;
    // the head rests at logical position 4 (storage index 8) on a default
    // symbol, still in state 0.
    assert_eq!(*machine.tape(), vec![1, 0, 1, 0, 1, 0, 1, 0, 0]);
    assert_eq!(machine.head(), 8);
    assert_eq!(machine.state(), 0);
    assert_eq!(machine.tape()[machine.head()], 0);
    // The head still reads (0, 0), so the machine keeps running: four more
    // steps write logical positions 4..7 and leave the head at position 8.
    for _ in 0..4 {
        machine.step();
    }
    assert_eq!(machine.head(), 16);
    assert_eq!(machine.state(), 0);
    for position in 0..8 {
        assert_eq!(machine.tape()[2 * position], 1);
    }
    assert_eq!(machine.tape()[16], 0);
}

#[test]
fn scenario_oscillator_trace() {
    // Two rules: (0,0) writes 1 and moves right into state 1; (1,0) writes 1
    // and moves left back into state 0.
    let rules: Vec<Rule> = vec![((0, 0), (1, M::Right, 1)), ((1, 0), (1, M::Left, 0))];
    let mut machine = Turing::new(0, rules);

    machine.step();
    assert_eq!(machine.state(), 1);
    assert_eq!(machine.head(), 2);
    assert_eq!(*machine.tape(), vec![1, 0, 0]);

    machine.step();
    assert_eq!(machine.state(), 0);
    assert_eq!(machine.head(), 0);
    assert_eq!(*machine.tape(), vec![1, 0, 1]);

    // The head now reads (0, 1), which no rule matches: further steps are
    // no-ops.
    machine.step();
    assert_eq!(snapshot(&machine), (0, 0, vec![1, 0, 1]));
    machine.step();
    assert_eq!(snapshot(&machine), (0, 0, vec![1, 0, 1]));
}

#[test]
fn growth_keeps_head_inside_storage() {
    let rules: Vec<Rule> = vec![((0, 0), (1, M::Right, 0))];
    let mut machine = Turing::new(0, rules);
    for _ in 0..10 {
        machine.step();
        assert!(machine.tape().len() > machine.head());
    }

    let rules: Vec<Rule> = vec![((0, 0), (1, M::Left, 0))];
    let mut machine = Turing::new(0, rules);
    for _ in 0..10 {
        machine.step();
        assert!(machine.tape().len() > machine.head());
    }
}

#[test]
fn halted_machine_never_changes() {
    // An empty table halts at once.
    let mut machine = Turing::new(7, vec![]);
    let before = snapshot(&machine);
    for _ in 0..5 {
        machine.step();
        assert_eq!(before, snapshot(&machine));
    }

    // A table whose only rule does not match the start halts at once too.
    let rules: Vec<Rule> = vec![((3, 1), (1, M::Right, 3))];
    let mut machine = Turing::new(0, rules);
    let before = snapshot(&machine);
    for _ in 0..5 {
        machine.step();
        assert_eq!(before, snapshot(&machine));
    }
}

#[test]
fn delta_takes_the_first_matching_rule() {
    // Two rules share the left side (0, 0): the first one wins.
    let rules: Vec<Rule> = vec![((0, 0), (5, M::Stop, 1)), ((0, 0), (7, M::Stop, 2))];
    let mut machine = Turing::new(0, rules);
    machine.step();
    assert_eq!(snapshot(&machine), (1, 0, vec![5]));
}

#[test]
fn stop_keeps_the_head_in_place() {
    let rules: Vec<Rule> = vec![((0, 0), (9, M::Stop, 3))];
    let mut machine = Turing::new(0, rules);
    machine.step();
    assert_eq!(snapshot(&machine), (3, 0, vec![9]));
    // (3, 9) has no rule: the machine has halted.
    machine.step();
    assert_eq!(snapshot(&machine), (3, 0, vec![9]));
}

#[test]
fn display_orders_negative_positions_first() {
    let rules: Vec<Rule> = vec![((0, 0), (1, M::Right, 1)), ((1, 0), (1, M::Left, 0))];
    let mut machine = Turing::new(0, rules);
    machine.step();
    machine.step();
    // Storage [1, 0, 1] holds logical positions [0, -1, 1]: rendered left to
    // right as positions -1, 0, 1.
    assert_eq!(machine.display_cells(), vec![0, 1, 1]);
    assert_eq!(machine.head_column(), 1);
    assert_eq!(machine.origin_column(), 1);
}

#[test]
fn display_marks_the_head_at_its_column() {
    let rules: Vec<Rule> = vec![((0, 0), (1, M::Right, 0))];
    let mut machine = Turing::new(0, rules);
    for _ in 0..4 {
        machine.step();
    }
    // Storage [1,0,1,0,1,0,1,0,0] renders as positions -4..=4.
    assert_eq!(machine.display_cells(), vec![0, 0, 0, 0, 1, 1, 1, 1, 0]);
    assert_eq!(machine.origin_column(), 4);
    // The head sits on storage index 8, logical position 4: the last column.
    assert_eq!(machine.head_column(), 8);

    // A head on a negative position lands left of the origin column.
    let rules: Vec<Rule> = vec![((0, 0), (1, M::Left, 0))];
    let mut machine = Turing::new(0, rules);
    machine.step();
    // Storage [1, 0]: positions [-1, 0], head on storage index 1.
    assert_eq!(machine.display_cells(), vec![0, 1]);
    assert_eq!(machine.head_column(), 0);
    assert_eq!(machine.origin_column(), 1);
}

//! The execution engine: a machine owns the tape storage, the head's storage
//! index, the control state and a fixed rule table, and advances by discrete
//! read-modify-move steps.

use vstd::prelude::*;

use crate::addressing::{lemma_position_round_trip, position_of, spec_resolve, Movement};

verus! {

/// One transition rule: `(state, read symbol)` on the left, and the written
/// symbol, the head movement and the next state on the right.
pub type Rule = ((u64, u64), (u64, Movement, u64));

/// The mathematical state of a machine: the head's storage index, the tape
/// storage, the control state and the rule table.
#[verifier::ext_equal]
pub ghost struct TuringView {
    pub head: int,
    pub mem: Seq<u64>,
    pub state: u64,
    pub quint: Seq<Rule>,
}

/// First-match rule lookup over the table entries from position `k` on.
pub open spec fn spec_delta_from(rules: Seq<Rule>, k: int, state: u64, character: u64) -> Option<
    (u64, Movement, u64),
>
    decreases rules.len() - k,
{
    if k < 0 || k >= rules.len() {
        None
    } else {
        let ((s, c), action) = rules[k];
        if s == state && c == character {
            Some(action)
        } else {
            spec_delta_from(rules, k + 1, state, character)
        }
    }
}

/// The rule applicable to `(state, character)`: the first table entry whose
/// left side equals the pair, or `None` when no entry matches.
pub open spec fn spec_delta(rules: Seq<Rule>, state: u64, character: u64) -> Option<
    (u64, Movement, u64),
> {
    spec_delta_from(rules, 0, state, character)
}

impl TuringView {
    /// The machine invariant: the head always addresses an allocated cell.
    pub open spec fn wf(self) -> bool {
        0 <= self.head < self.mem.len()
    }

    /// The symbol stored under the head.
    pub open spec fn read_head(self) -> u64 {
        self.mem[self.head]
    }

    /// Whether no rule matches the current state and the symbol under the
    /// head, so that stepping leaves the machine unchanged.
    pub open spec fn is_halted(self) -> bool {
        spec_delta(self.quint, self.state, self.read_head()) is None
    }
}

/// The effect of one step: look the current `(state, symbol)` pair up in the
/// table; on a match, write the rule's symbol under the head, move the head as
/// the rule says (growing the storage with default symbols up to the new head),
/// and take the rule's next state; otherwise leave everything unchanged.
pub open spec fn spec_step(m: TuringView) -> TuringView {
    match spec_delta(m.quint, m.state, m.read_head()) {
        None => m,
        Some((written, movement, next_state)) => {
            let mem = m.mem.update(m.head, written);
            match spec_resolve(movement, m.head) {
                None => TuringView { mem, state: next_state, ..m },
                Some(next_head) => TuringView {
                    head: next_head,
                    mem: if next_head < mem.len() {
                        mem
                    } else {
                        mem + Seq::new((next_head + 1 - mem.len()) as nat, |i: int| 0u64)
                    },
                    state: next_state,
                    quint: m.quint,
                },
            }
        },
    }
}

/// The machine after `n` steps.
pub open spec fn spec_run(m: TuringView, n: nat) -> TuringView
    decreases n,
{
    if n == 0 {
        m
    } else {
        spec_step(spec_run(m, (n - 1) as nat))
    }
}

/// Law (growth invariant): a step keeps the head inside the storage, never
/// shrinks the storage, and leaves the rule table unchanged.
pub proof fn lemma_step_preserves_wf(m: TuringView)
    requires
        m.wf(),
    ensures
        spec_step(m).wf(),
        spec_step(m).mem.len() >= m.mem.len(),
        spec_step(m).quint == m.quint,
{
    match spec_delta(m.quint, m.state, m.read_head()) {
        None => {},
        Some((written, movement, next_state)) => {
            match spec_resolve(movement, m.head) {
                None => {},
                Some(next_head) => {
                    lemma_position_round_trip(position_of(m.head) - 1);
                    lemma_position_round_trip(position_of(m.head) + 1);
                },
            }
        },
    }
}

/// Law (growth invariant over a whole run): after any number of steps the
/// storage length is still strictly greater than the head's storage index,
/// and the storage never shrinks.
pub proof fn lemma_run_preserves_wf(m: TuringView, n: nat)
    requires
        m.wf(),
    ensures
        spec_run(m, n).wf(),
        spec_run(m, n).mem.len() >= m.mem.len(),
        spec_run(m, n).quint == m.quint,
    decreases n,
{
    if n > 0 {
        lemma_run_preserves_wf(m, (n - 1) as nat);
        lemma_step_preserves_wf(spec_run(m, (n - 1) as nat));
    }
}

/// Law (halt idempotence): a halted machine is a fixed point of the step
/// relation.
pub proof fn lemma_halted_is_fixed_point(m: TuringView)
    requires
        m.is_halted(),
    ensures
        spec_step(m) == m,
{
}

/// Law (halt idempotence over a whole run): once halted, any number of
/// further steps leaves the machine unchanged.
pub proof fn lemma_halted_stays_halted(m: TuringView, n: nat)
    requires
        m.is_halted(),
    ensures
        spec_run(m, n) == m,
    decreases n,
{
    if n > 0 {
        lemma_halted_stays_halted(m, (n - 1) as nat);
    }
}

/// The storage index shown under rendering column `column` when the storage
/// holds `len` cells: the columns walk the odd indices downward and then the
/// even indices upward, so the logical positions read left to right.
pub open spec fn index_at_column(len: int, column: int) -> int {
    if column < len / 2 {
        2 * (len / 2 - column) - 1
    } else {
        2 * (column - len / 2)
    }
}

/// The rendering column under which storage index `index` is shown when the
/// storage holds `len` cells.
pub open spec fn column_of(len: int, index: int) -> int {
    if index % 2 == 1 {
        len / 2 - (index + 1) / 2
    } else {
        len / 2 + index / 2
    }
}

/// Law: every allocated storage index is shown under exactly the column that
/// `column_of` names, and that column is within the rendered row.
pub proof fn lemma_column_round_trip(len: int, index: int)
    requires
        0 <= index < len,
    ensures
        0 <= column_of(len, index) < len,
        index_at_column(len, column_of(len, index)) == index,
{
}

/// The operations of a Turing-machine engine: rule lookup and one discrete
/// step, with the invariant and the step relation the implementer supplies.
pub trait TuringComplete: Sized {
    type Alphabet;

    type State;

    /// The machine invariant that construction establishes and every step
    /// preserves.
    spec fn inv(&self) -> bool;

    /// The machine-size limit under which a step is known not to run out of
    /// storage indices.
    spec fn step_enabled(&self) -> bool;

    /// How one step relates the machine before and after the call.
    spec fn stepped(pre: Self, post: Self) -> bool;

    /// What `delta` returns for a given state and symbol.
    spec fn delta_spec(&self, state: Self::State, character: Self::Alphabet) -> Option<
        (Self::Alphabet, Movement, Self::State),
    >;

    /// The first rule of the table matching `(state, character)`, if any.
    fn delta(&self, state: Self::State, character: Self::Alphabet) -> (r: Option<
        (Self::Alphabet, Movement, Self::State),
    >)
        ensures
            r == self.delta_spec(state, character),
    ;

    /// Advances the machine by one discrete transition.
    fn step(&mut self)
        requires
            old(self).inv(),
            old(self).step_enabled(),
        ensures
            final(self).inv(),
            Self::stepped(*old(self), *final(self)),
    ;
}

/// A machine instance: tape storage, head, control state and rule table.
pub struct Turing {
    head: usize,
    // storage order of logical positions: `[0, -1, 1, -2, 2, -3, 3, ...]`
    mem: Vec<u64>,
    state: u64,
    quint: Vec<Rule>,
}

impl View for Turing {
    type V = TuringView;

    closed spec fn view(&self) -> TuringView {
        TuringView { head: self.head as int, mem: self.mem@, state: self.state, quint: self.quint@ }
    }
}

impl Turing {
    /// A fresh machine: a single default-valued cell, the head on it, the
    /// given initial state and the given rule table.
    pub fn new(state: u64, quint: Vec<Rule>) -> (machine: Turing)
        ensures
            machine@ == (TuringView { head: 0, mem: seq![0u64], state, quint: quint@ }),
            machine@.wf(),
    {
        let machine = Turing { head: 0, mem: vec![0u64], state, quint };
        proof {
            assert(machine@.mem =~= seq![0u64]);
            assert(machine@ =~= (TuringView {
                head: 0,
                mem: seq![0u64],
                state: machine.state,
                quint: machine.quint@,
            }));
        }
        machine
    }

    /// The current control state.
    pub fn state(&self) -> (state: u64)
        ensures
            state == self@.state,
    {
        self.state
    }

    /// The head's current storage index.
    pub fn head(&self) -> (head: usize)
        ensures
            head == self@.head,
    {
        self.head
    }

    /// The tape storage, in storage order.
    pub fn tape(&self) -> (tape: &Vec<u64>)
        ensures
            tape@ == self@.mem,
    {
        &self.mem
    }

    /// The tape symbols in rendering order: negative logical positions first
    /// in increasing order, then the non-negative ones.
    pub fn display_cells(&self) -> (cells: Vec<u64>)
        ensures
            cells@.len() == self@.mem.len(),
            forall|c: int|
                0 <= c < cells@.len() ==> cells@[c] == self@.mem[index_at_column(
                    self@.mem.len() as int,
                    c,
                )],
    {
        let len = self.mem.len();
        let mut cells: Vec<u64> = Vec::new();
        let mut k: usize = len / 2;
        while k > 0
            invariant
                k <= len / 2,
                len == self.mem@.len(),
                cells@.len() == len / 2 - k,
                forall|c: int|
                    0 <= c < cells@.len() ==> cells@[c] == self.mem@[index_at_column(
                        len as int,
                        c,
                    )],
            decreases k,
        {
            cells.push(self.mem[2 * k - 1]);
            k = k - 1;
        }
        let mut j: usize = 0;
        while j < len - len / 2
            invariant
                j <= len - len / 2,
                len == self.mem@.len(),
                cells@.len() == len / 2 + j,
                forall|c: int|
                    0 <= c < cells@.len() ==> cells@[c] == self.mem@[index_at_column(
                        len as int,
                        c,
                    )],
            decreases len - len / 2 - j,
        {
            cells.push(self.mem[2 * j]);
            j = j + 1;
        }
        cells
    }

    /// The rendering column under which the head's cell is shown.
    pub fn head_column(&self) -> (column: usize)
        requires
            self@.wf(),
        ensures
            column as int == column_of(self@.mem.len() as int, self@.head),
    {
        let len = self.mem.len();
        if self.head % 2 == 1 {
            len / 2 - (self.head + 1) / 2
        } else {
            len / 2 + self.head / 2
        }
    }

    /// The rendering column under which logical position zero is shown.
    pub fn origin_column(&self) -> (column: usize)
        ensures
            column as int == column_of(self@.mem.len() as int, 0),
    {
        self.mem.len() / 2
    }

    /// Resolves a rule's movement against the head's current storage index.
    fn movement(&self, movement: Movement) -> (r: Option<usize>)
        requires
            self@.head <= usize::MAX - 2,
        ensures
            match r {
                Some(next) => spec_resolve(movement, self@.head) == Some(next as int),
                None => spec_resolve(movement, self@.head) is None,
            },
    {
        movement.unsigned_even_odd(self.head)
    }
}

impl TuringComplete for Turing {
    type Alphabet = u64;

    type State = u64;

    open spec fn inv(&self) -> bool {
        self@.wf()
    }

    open spec fn step_enabled(&self) -> bool {
        self@.head <= usize::MAX - 2
    }

    open spec fn stepped(pre: Self, post: Self) -> bool {
        post@ == spec_step(pre@)
    }

    open spec fn delta_spec(&self, state: u64, character: u64) -> Option<(u64, Movement, u64)> {
        spec_delta(self@.quint, state, character)
    }

    fn delta(&self, state: u64, character: u64) -> (r: Option<(u64, Movement, u64)>) {
        let mut k: usize = 0;
        while k < self.quint.len()
            invariant
                k <= self.quint@.len(),
                spec_delta(self.quint@, state, character) == spec_delta_from(
                    self.quint@,
                    k as int,
                    state,
                    character,
                ),
            decreases self.quint@.len() - k,
        {
            let ((s, c), action) = self.quint[k];
            if s == state && c == character {
                return Some(action);
            }
            k = k + 1;
        }
        None
    }

    fn step(&mut self) {
        let ghost pre = self@;
        let character = self.mem[self.head];
        if let Some((written, movement, next_state)) = self.delta(self.state, character) {
            self.mem.set(self.head, written);
            let ghost grown = pre.mem.update(pre.head, written);
            if let Some(next_head) = self.movement(movement) {
                self.head = next_head;
                while self.mem.len() <= self.head
                    invariant
                        self.head == next_head,
                        self.state == pre.state,
                        self.quint@ == pre.quint,
                        spec_resolve(movement, pre.head) == Some(next_head as int),
                        grown.len() <= self.mem@.len(),
                        self.mem@.subrange(0, grown.len() as int) == grown,
                        forall|j: int|
                            grown.len() <= j < self.mem@.len() ==> self.mem@[j] == 0u64,
                        self.mem@.len() <= grown.len() || self.mem@.len() <= next_head + 1,
                    decreases self.head + 1 - self.mem.len(),
                {
                    self.mem.push(0u64);
                }
                proof {
                    if next_head as int >= grown.len() {
                        assert(self.mem@ =~= grown + Seq::new(
                            (next_head + 1 - grown.len()) as nat,
                            |i: int| 0u64,
                        ));
                    } else {
                        assert(self.mem@ =~= grown);
                    }
                }
            }
            self.state = next_state;
            proof {
                assert(self@ =~= spec_step(pre));
                lemma_step_preserves_wf(pre);
            }
        }
    }
}

} // verus!

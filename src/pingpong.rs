//! The two cell buffers of the grid store and the parity rule that gives
//! each of them its role at a tick.
use vstd::prelude::*;

verus! {

/// Number of cell buffers in the store.
pub const N_BUFFERS: usize = 2;

/// Index of the buffer that holds the authoritative state before the update of tick `t`.
pub open spec fn current_of(t: nat) -> nat {
    t % 2
}

/// Index of the buffer that the update of tick `t` writes.
pub open spec fn next_of(t: nat) -> nat {
    (t + 1) % 2
}

/// A pairing of the two buffers: the update reads `read` and writes `write`.
#[derive(Clone, Copy, Debug, PartialEq, Eq, Structural)]
pub struct BindSet {
    pub read: usize,
    pub write: usize,
}

/// The bind set with index `i`: it reads buffer `i` and writes the other one.
pub open spec fn bind_set_of(i: nat) -> BindSet {
    BindSet { read: (i % 2) as usize, write: ((i + 1) % 2) as usize }
}

/// Buffer that the update stage reads at tick `frame_num`.
pub fn current_index(frame_num: usize) -> (r: usize)
    ensures
        r as nat == current_of(frame_num as nat),
        r < N_BUFFERS,
{
    frame_num % 2
}

/// Buffer that the update stage writes at tick `frame_num`; the draw of the
/// same tick reads it.
pub fn next_index(frame_num: usize) -> (r: usize)
    ensures
        r as nat == next_of(frame_num as nat),
        r < N_BUFFERS,
{
    if frame_num % 2 == 0 {
        1
    } else {
        0
    }
}

/// The bind set with index `i`, for `i` in `0..2`.
pub fn bind_set(i: usize) -> (r: BindSet)
    requires
        i < N_BUFFERS,
    ensures
        r == bind_set_of(i as nat),
        r.read == i,
        r.write != r.read,
{
    BindSet { read: i, write: (i + 1) % 2 }
}

/// Both bind sets, created once; entry `i` reads buffer `i`.
pub fn bind_sets() -> (r: Vec<BindSet>)
    ensures
        r@.len() == N_BUFFERS,
        forall|i: int| 0 <= i < 2 ==> #[trigger] r@[i] == bind_set_of(i as nat),
{
    let mut v: Vec<BindSet> = Vec::new();
    v.push(bind_set(0));
    v.push(bind_set(1));
    v
}

/// Index of the bind set that the update stage uses at tick `frame_num`.
pub fn update_bind_index(frame_num: usize) -> (r: usize)
    ensures
        r as nat == current_of(frame_num as nat),
        bind_set_of(r as nat).read as nat == current_of(frame_num as nat),
        bind_set_of(r as nat).write as nat == next_of(frame_num as nat),
{
    current_index(frame_num)
}

/// At every tick the update reads one buffer and writes the other: the
/// bind set chosen by parity never has its input equal to its output, and the
/// draw of that tick reads exactly the buffer the update wrote.
pub proof fn lemma_no_self_aliasing(t: nat)
    ensures
        bind_set_of(current_of(t)).read != bind_set_of(current_of(t)).write,
        bind_set_of(current_of(t)).read as nat == current_of(t),
        bind_set_of(current_of(t)).write as nat == next_of(t),
        current_of(t) != next_of(t),
{
}

/// The buffer roles repeat with period two: tick `t + 2` gives the same
/// current buffer, next buffer and bind set as tick `t`.
pub proof fn lemma_roles_period_two(t: nat)
    ensures
        current_of(t + 2) == current_of(t),
        next_of(t + 2) == next_of(t),
        bind_set_of(current_of(t + 2)) == bind_set_of(current_of(t)),
{
}

/// The buffer written at tick `t` is the one read by the update of tick `t + 1`.
pub proof fn lemma_written_is_next_current(t: nat)
    ensures
        next_of(t) == current_of(t + 1),
{
}

} // verus!

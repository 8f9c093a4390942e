use vstd::prelude::*;
use crate::model::Pid;
use crate::process::{ProcInfo, ProcUsage};

verus! {

/// A process as the host lists it.
#[derive(Clone, Debug)]
pub struct HostProcess {
    pub pid: Pid,
    pub parent: Option<Pid>,
    pub name: String,
}

/// The name of the helper that the recipe runner starts beside a recipe,
/// which is never the process to measure.
pub open spec fn trap_name() -> Seq<char> {
    "ctrl-c"@
}

/// The parent of `p`, with `0` standing for none.
pub open spec fn parent_or_zero(p: HostProcess) -> Pid {
    match p.parent {
        Some(q) => q,
        None => 0,
    }
}

/// `i` is the first process of `table` that is a measurable child of `parent`.
pub open spec fn is_first_child(table: Seq<HostProcess>, parent: Pid, i: int) -> bool {
    &&& 0 <= i < table.len()
    &&& parent_or_zero(table[i]) == parent && table[i].name@ != trap_name()
    &&& forall|k: int| 0 <= k < i ==> !(parent_or_zero(#[trigger] table[k]) == parent && table[k].name@ != trap_name())
}

/// The process whose figures stand for a child: for a recipe runner, its
/// first child other than the trap helper, where there is one; else the
/// child itself.
pub fn main_pid(parent: Pid, program: &str, table: &Vec<HostProcess>) -> (r: Pid)
    ensures
        program@ != crate::model::recipe_runner() ==> r == parent,
        program@ == crate::model::recipe_runner() ==> {
            ||| exists|i: int| is_first_child(table@, parent, i) && r == #[trigger] table@[i].pid
            ||| (forall|i: int| !is_first_child(table@, parent, i)) && r == parent
        },
{
    let runner = "just";
    let trap = "ctrl-c";
    proof {
        reveal_strlit("just");
        reveal_strlit("ctrl-c");
    }
    let runner = runner.to_string();
    let trap = trap.to_string();
    assert(runner@ =~= crate::model::recipe_runner());
    let prog = program.to_string();
    if prog != runner {
        return parent;
    }
    assert(program@ == crate::model::recipe_runner());
    let mut i: usize = 0;
    while i < table.len()
        invariant
            i <= table@.len(),
            trap@ == trap_name(),
            program@ == crate::model::recipe_runner(),
            forall|k: int| 0 <= k < i ==> !(parent_or_zero(#[trigger] table@[k]) == parent && table@[k].name@ != trap_name()),
        decreases table@.len() - i,
    {
        let p = &table[i];
        let pp: Pid = match p.parent {
            Some(q) => q,
            None => 0,
        };
        if pp == parent && p.name != trap {
            assert(is_first_child(table@, parent, i as int));
            return p.pid;
        }
        i = i + 1;
    }
    parent
}

/// Counts per second: `value` counted over `interval_ms`, saturating.
pub open spec fn rate_spec(value: u64, interval_ms: u64) -> u64 {
    let r = value * 1000 / interval_ms as int;
    if r <= u64::MAX {
        r as u64
    } else {
        u64::MAX
    }
}

pub fn per_second(value: u64, interval_ms: u64) -> (r: u64)
    requires
        interval_ms > 0,
    ensures
        r == rate_spec(value, interval_ms),
{
    let scaled: u128 = value as u128 * 1000;
    let q: u128 = scaled / interval_ms as u128;
    if q <= u64::MAX as u128 {
        q as u64
    } else {
        u64::MAX
    }
}

/// A process record with a sample's figures taken in; without a sample the
/// current figures drop to zero and the totals stay.
pub open spec fn with_usage(info: ProcInfo, usage: Option<ProcUsage>, interval_ms: u64) -> ProcInfo {
    match usage {
        Some(u) => ProcInfo {
            cpu: u.cpu,
            memory: u.memory,
            virtual_memory: u.virtual_memory,
            total_written_bytes: u.total_written_bytes,
            written_bytes: rate_spec(u.written_bytes, interval_ms),
            total_read_bytes: u.total_read_bytes,
            read_bytes: rate_spec(u.read_bytes, interval_ms),
            ..info
        },
        None => ProcInfo { cpu: 0, memory: 0, virtual_memory: 0, written_bytes: 0, read_bytes: 0, ..info },
    }
}

pub fn apply_usage(info: &mut ProcInfo, usage: Option<ProcUsage>, interval_ms: u64)
    requires
        interval_ms > 0,
    ensures
        *final(info) == with_usage(*old(info), usage, interval_ms),
{
    match usage {
        Some(u) => {
            info.cpu = u.cpu;
            info.memory = u.memory;
            info.virtual_memory = u.virtual_memory;
            info.total_written_bytes = u.total_written_bytes;
            info.written_bytes = per_second(u.written_bytes, interval_ms);
            info.total_read_bytes = u.total_read_bytes;
            info.read_bytes = per_second(u.read_bytes, interval_ms);
        },
        None => {
            info.cpu = 0;
            info.memory = 0;
            info.virtual_memory = 0;
            info.written_bytes = 0;
            info.read_bytes = 0;
        },
    }
}

} // verus!

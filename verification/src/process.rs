//! The task manager: reading the lines of `ps`, folding each process's
//! children into it, ordering by memory or CPU, and how sizes and names are
//! shown.

use vstd::prelude::*;

use crate::chars::{chars_of, str_concat, same_str, substring};
use crate::list::{Item, ItemBuilder};
use crate::num::{decimal, decimal_spec, parse_u64, parse_u64_spec};
use crate::sort::{sort_desc, sorted_desc_from};
use crate::state::{Action, action_is};
use crate::strs::{split, split_from};
use crate::words::{split_whitespace, words_spec};

verus! {

/// A line of `ps -eo pid,ppid,pcpu,rss,comm`: the process id, its parent's
/// id, the CPU share as printed, the resident memory in KiB, and the
/// command.
#[derive(Debug)]
pub struct ProcessRow {
    pub pid: u64,
    pub ppid: u64,
    pub cpu: String,
    pub mem: u64,
    pub name: String,
}

/// What a line reads as: at least five words, the first, second and fourth
/// of them numbers; `None` otherwise.
pub open spec fn row_spec(line: Seq<char>) -> Option<(u64, u64, Seq<char>, u64, Seq<char>)> {
    let w = words_spec(line);
    if w.len() >= 5 && parse_u64_spec(w[0]) is Some && parse_u64_spec(w[1]) is Some && parse_u64_spec(w[3]) is Some {
        Some((parse_u64_spec(w[0])->0, parse_u64_spec(w[1])->0, w[2], parse_u64_spec(w[3])->0, w[4]))
    } else {
        None
    }
}

/// The value of a row.
pub open spec fn row_view(r: ProcessRow) -> (u64, u64, Seq<char>, u64, Seq<char>) {
    (r.pid, r.ppid, r.cpu@, r.mem, r.name@)
}

/// One line of `ps`; `None` where it does not read as a process. The CPU
/// share is kept as printed.
pub fn parse_row(line: &str) -> (r: Option<ProcessRow>)
    ensures
        match r {
            Some(p) => row_spec(line@) == Some(row_view(p)),
            None => row_spec(line@) is None,
        },
{
    let w = split_whitespace(line);
    proof {
        assert(w@.map_values(|s: String| s@).len() == w@.len());
    }
    if w.len() < 5 {
        return None;
    }
    proof {
        assert(forall|i: int| 0 <= i < w@.len() ==> w@.map_values(|s: String| s@)[i] == (#[trigger] w@[i])@);
    }
    let pid = parse_u64(w[0].as_str());
    let ppid = parse_u64(w[1].as_str());
    let mem = parse_u64(w[3].as_str());
    match (pid, ppid, mem) {
        (Some(pid), Some(ppid), Some(mem)) => Some(
            ProcessRow { pid, ppid, cpu: w[2].clone(), mem, name: w[4].clone() },
        ),
        _ => None,
    }
}

/// The rows of `ps`'s output: its lines after the header, those that read
/// as processes.
pub open spec fn rows_spec(lines: Seq<Seq<char>>) -> Seq<(u64, u64, Seq<char>, u64, Seq<char>)>
    decreases lines.len(),
{
    if lines.len() == 0 {
        Seq::empty()
    } else {
        let rest = rows_spec(lines.drop_last());
        match row_spec(lines.last()) {
            Some(r) => rest.push(r),
            None => rest,
        }
    }
}

/// The processes `ps` listed in `output`.
pub fn parse_rows(output: &str) -> (r: Vec<ProcessRow>)
    ensures
        r@.map_values(|p: ProcessRow| row_view(p)) == rows_spec(split_from(output@, "\n"@, 0).drop_first()),
{
    proof {
        reveal_strlit("\n");
    }
    let lines = split(output, "\n");
    let ghost lv = lines@.map_values(|l: String| l@);
    proof {
        crate::strs::lemma_split_from_nonempty(output@, "\n"@, 0);
        assert(lv.len() == lines@.len());
        assert(lv.drop_first().take(0) =~= Seq::<Seq<char>>::empty());
    }
    let mut r: Vec<ProcessRow> = Vec::new();
    let mut i: usize = 1;
    while i < lines.len()
        invariant
            1 <= i <= lines@.len(),
            lv == lines@.map_values(|l: String| l@),
            r@.map_values(|p: ProcessRow| row_view(p)) == rows_spec(lv.drop_first().take(i - 1)),
        decreases lines.len() - i,
    {
        let ghost before = r@.map_values(|p: ProcessRow| row_view(p));
        proof {
            assert(lv.drop_first().take(i as int).drop_last() =~= lv.drop_first().take(i - 1));
            assert(lv.drop_first().take(i as int).last() == lines@[i as int]@);
        }
        match parse_row(lines[i].as_str()) {
            Some(p) => {
                r.push(p);
                proof {
                    assert(r@.map_values(|p: ProcessRow| row_view(p)) =~= before.push(row_view(p)));
                }
            },
            None => {},
        }
        i = i + 1;
    }
    proof {
        assert(lv.drop_first().take(i - 1) =~= lv.drop_first());
    }
    r
}

// ------------------------------------------------------------ aggregation

/// A process with its children folded in: its id, the memory of all of
/// them in KiB, and the rows they came from, its own first.
#[derive(Debug)]
pub struct ProcessGroup {
    pub pid: u64,
    pub mem: u128,
    pub members: Vec<usize>,
}

/// The value of a group.
pub open spec fn group_view(g: ProcessGroup) -> (u64, int, Seq<int>) {
    (g.pid, g.mem as int, g.members@.map_values(|m: usize| m as int))
}

/// The position of the group of `pid`, if any.
pub open spec fn group_index(g: Seq<(u64, int, Seq<int>)>, pid: u64) -> Option<int>
    decreases g.len(),
{
    if g.len() == 0 {
        None
    } else if g.last().0 == pid {
        Some(g.len() - 1)
    } else {
        group_index(g.drop_last(), pid)
    }
}

/// The groups the rows fold into, as a map keyed by process id does it:
/// a process whose parent is process 1 starts (or restarts) a group of its
/// own; a process whose parent has a group joins it; any other is left
/// out.
pub open spec fn groups_spec(rows: Seq<(u64, u64, u64)>) -> Seq<(u64, int, Seq<int>)>
    decreases rows.len(),
{
    if rows.len() == 0 {
        Seq::empty()
    } else {
        let g = groups_spec(rows.drop_last());
        let (pid, ppid, mem) = rows.last();
        let i = rows.len() - 1;
        if ppid == 1 {
            match group_index(g, pid) {
                Some(j) => g.update(j, (pid, mem as int, seq![i])),
                None => g.push((pid, mem as int, seq![i])),
            }
        } else {
            match group_index(g, ppid) {
                Some(j) => g.update(j, (g[j].0, g[j].1 + mem, g[j].2.push(i))),
                None => g,
            }
        }
    }
}

/// The ids and memory of some rows.
pub open spec fn row_keys(rows: Seq<ProcessRow>) -> Seq<(u64, u64, u64)> {
    rows.map_values(|p: ProcessRow| (p.pid, p.ppid, p.mem))
}

/// Facts the fold keeps: every group's position is found by its id, its
/// rows are earlier than `n`, and its memory is at most one full `u64` per
/// row.
pub open spec fn groups_ok(g: Seq<(u64, int, Seq<int>)>, n: int) -> bool {
    &&& forall|j: int| 0 <= j < g.len() ==> group_index(g, (#[trigger] g[j]).0) == Some(j)
    &&& forall|j: int| 0 <= j < g.len() ==> 0 <= (#[trigger] g[j]).1 <= n * u64::MAX
    &&& forall|j: int, k: int| 0 <= j < g.len() && 0 <= k < (#[trigger] g[j]).2.len() ==> 0 <= #[trigger] g[j].2[k] < n
}

proof fn lemma_group_index_bounds(g: Seq<(u64, int, Seq<int>)>, pid: u64)
    ensures
        group_index(g, pid) matches Some(j) ==> 0 <= j < g.len() && g[j].0 == pid,
        group_index(g, pid) is None ==> forall|j: int| 0 <= j < g.len() ==> (#[trigger] g[j]).0 != pid,
    decreases g.len(),
{
    if g.len() > 0 {
        lemma_group_index_bounds(g.drop_last(), pid);
        assert forall|j: int| 0 <= j < g.len() - 1 implies g.drop_last()[j] == #[trigger] g[j] by {}
    }
}

proof fn lemma_group_index_unique(g: Seq<(u64, int, Seq<int>)>, pid: u64, j: int)
    requires
        0 <= j < g.len(),
        g[j].0 == pid,
        forall|a: int, b: int| 0 <= a < b < g.len() ==> (#[trigger] g[a]).0 != (#[trigger] g[b]).0,
    ensures
        group_index(g, pid) == Some(j),
    decreases g.len(),
{
    if j < g.len() - 1 {
        assert(g[j].0 != g[g.len() - 1].0);
        assert(g.drop_last()[j] == g[j]);
        assert forall|a: int, b: int| 0 <= a < b < g.drop_last().len() implies (#[trigger] g.drop_last()[a]).0
            != (#[trigger] g.drop_last()[b]).0 by {
            assert(g.drop_last()[a] == g[a]);
            assert(g.drop_last()[b] == g[b]);
        }
        lemma_group_index_unique(g.drop_last(), pid, j);
    }
}

/// Where the positions of ids are found by them, the ids are distinct.
proof fn lemma_distinct_pids(g: Seq<(u64, int, Seq<int>)>)
    requires
        forall|j: int| 0 <= j < g.len() ==> group_index(g, (#[trigger] g[j]).0) == Some(j),
    ensures
        forall|a: int, b: int| 0 <= a < b < g.len() ==> (#[trigger] g[a]).0 != (#[trigger] g[b]).0,
{
    assert forall|a: int, b: int| 0 <= a < b < g.len() implies (#[trigger] g[a]).0 != (#[trigger] g[b]).0 by {
        if g[a].0 == g[b].0 {
            assert(group_index(g, g[a].0) == Some(a));
            assert(group_index(g, g[b].0) == Some(b));
        }
    }
}

fn find_group(groups: &Vec<ProcessGroup>, pid: u64) -> (r: Option<usize>)
    ensures
        match r {
            Some(j) => group_index(groups@.map_values(|g: ProcessGroup| group_view(g)), pid) == Some(j as int),
            None => group_index(groups@.map_values(|g: ProcessGroup| group_view(g)), pid) is None,
        },
{
    let ghost gv = groups@.map_values(|g: ProcessGroup| group_view(g));
    let mut j = groups.len();
    proof {
        assert(gv.take(j as int) =~= gv);
    }
    while j > 0
        invariant
            j <= groups@.len(),
            gv == groups@.map_values(|g: ProcessGroup| group_view(g)),
            group_index(gv, pid) == group_index(gv.take(j as int), pid),
        decreases j,
    {
        proof {
            assert(gv.take(j as int).drop_last() =~= gv.take(j - 1));
            assert(gv.take(j as int).last() == group_view(groups@[j - 1]));
        }
        if groups[j - 1].pid == pid {
            return Some(j - 1);
        }
        j = j - 1;
    }
    proof {
        assert(gv.take(0) =~= Seq::<(u64, int, Seq<int>)>::empty());
    }
    None
}

fn copy_members(m: &Vec<usize>) -> (r: Vec<usize>)
    ensures
        r@ == m@,
{
    let mut r: Vec<usize> = Vec::new();
    let mut i: usize = 0;
    while i < m.len()
        invariant
            i <= m@.len(),
            r@ == m@.take(i as int),
        decreases m.len() - i,
    {
        r.push(m[i]);
        i = i + 1;
        proof {
            assert(r@ =~= m@.take(i as int));
        }
    }
    proof {
        assert(m@.take(i as int) =~= m@);
    }
    r
}

/// Folds each process's children into it (`groups_spec`).
pub fn aggregate(rows: &Vec<ProcessRow>) -> (r: Vec<ProcessGroup>)
    ensures
        r@.map_values(|g: ProcessGroup| group_view(g)) == groups_spec(row_keys(rows@)),
{
    let ghost keys = row_keys(rows@);
    let mut groups: Vec<ProcessGroup> = Vec::new();
    let mut i: usize = 0;
    proof {
        assert(keys.take(0) =~= Seq::<(u64, u64, u64)>::empty());
    }
    while i < rows.len()
        invariant
            i <= rows@.len(),
            keys == row_keys(rows@),
            groups@.map_values(|g: ProcessGroup| group_view(g)) == groups_spec(keys.take(i as int)),
            groups_ok(groups_spec(keys.take(i as int)), i as int),
        decreases rows.len() - i,
    {
        let ghost g = groups_spec(keys.take(i as int));
        let ghost gv_before = groups@.map_values(|g: ProcessGroup| group_view(g));
        proof {
            assert(keys.take(i + 1).drop_last() =~= keys.take(i as int));
            assert(keys.take(i + 1).last() == (rows@[i as int].pid, rows@[i as int].ppid, rows@[i as int].mem));
            lemma_distinct_pids(g);
        }
        let p = &rows[i];
        if p.ppid == 1 {
            let mut members: Vec<usize> = Vec::new();
            members.push(i);
            let group = ProcessGroup { pid: p.pid, mem: p.mem as u128, members };
            proof {
                assert(members@.map_values(|m: usize| m as int) =~= seq![i as int]);
                lemma_group_index_bounds(g, p.pid);
            }
            match find_group(&groups, p.pid) {
                Some(j) => {
                    groups.set(j, group);
                    proof {
                        let ng = g.update(j as int, (p.pid, p.mem as int, seq![i as int]));
                        assert(groups@.map_values(|g: ProcessGroup| group_view(g)) =~= ng);
                        assert forall|a: int| 0 <= a < ng.len() implies group_index(ng, (#[trigger] ng[a]).0) == Some(a) by {
                            assert forall|x: int, y: int| 0 <= x < y < ng.len() implies (#[trigger] ng[x]).0 != (#[trigger] ng[y]).0 by {
                                assert(g[x].0 != g[y].0);
                            }
                            lemma_group_index_unique(ng, ng[a].0, a);
                        }
                    }
                },
                None => {
                    groups.push(group);
                    proof {
                        let ng = g.push((p.pid, p.mem as int, seq![i as int]));
                        assert(groups@.map_values(|g: ProcessGroup| group_view(g)) =~= ng);
                        assert forall|a: int| 0 <= a < ng.len() implies group_index(ng, (#[trigger] ng[a]).0) == Some(a) by {
                            assert forall|x: int, y: int| 0 <= x < y < ng.len() implies (#[trigger] ng[x]).0 != (#[trigger] ng[y]).0 by {
                                if y < g.len() {
                                    assert(g[x].0 != g[y].0);
                                } else {
                                    assert(g[x].0 != p.pid);
                                }
                            }
                            lemma_group_index_unique(ng, ng[a].0, a);
                        }
                    }
                },
            }
        } else {
            proof {
                lemma_group_index_bounds(g, p.ppid);
            }
            match find_group(&groups, p.ppid) {
                Some(j) => {
                    let mut members = copy_members(&groups[j].members);
                    members.push(i);
                    proof {
                        assert(groups[j as int].mem <= i * u64::MAX);
                        assert(groups[j as int].mem + p.mem <= (i + 1) * u64::MAX) by (nonlinear_arith)
                            requires
                                groups[j as int].mem <= i * u64::MAX,
                                p.mem <= u64::MAX,
                        ;
                        assert((i + 1) * u64::MAX <= u128::MAX) by (nonlinear_arith)
                            requires
                                i < usize::MAX,
                        ;
                    }
                    let group = ProcessGroup { pid: groups[j].pid, mem: groups[j].mem + p.mem as u128, members };
                    let ghost old_members = groups@[j as int].members@;
                    groups.set(j, group);
                    proof {
                        let ng = g.update(j as int, (g[j as int].0, g[j as int].1 + p.mem, g[j as int].2.push(i as int)));
                        assert(group_view(groups@[j as int]).2 =~= g[j as int].2.push(i as int));
                        assert(groups@.map_values(|g: ProcessGroup| group_view(g)) =~= ng);
                        assert forall|a: int| 0 <= a < ng.len() implies group_index(ng, (#[trigger] ng[a]).0) == Some(a) by {
                            assert forall|x: int, y: int| 0 <= x < y < ng.len() implies (#[trigger] ng[x]).0 != (#[trigger] ng[y]).0 by {
                                assert(g[x].0 != g[y].0);
                            }
                            lemma_group_index_unique(ng, ng[a].0, a);
                        }
                        assert forall|a: int| 0 <= a < ng.len() implies 0 <= (#[trigger] ng[a]).1 <= (i + 1) * u64::MAX by {
                            if a != j {
                                assert(g[a].1 <= i * u64::MAX);
                                assert(i * u64::MAX <= (i + 1) * u64::MAX) by (nonlinear_arith);
                            }
                        }
                    }
                },
                None => {},
            }
        }
        proof {
            let ng = groups_spec(keys.take(i + 1));
            assert forall|a: int| 0 <= a < ng.len() implies 0 <= (#[trigger] ng[a]).1 <= (i + 1) * u64::MAX by {
                assert(i * u64::MAX <= (i + 1) * u64::MAX) by (nonlinear_arith);
                assert(u64::MAX <= (i + 1) * u64::MAX) by (nonlinear_arith);
            }
        }
        i = i + 1;
    }
    proof {
        assert(keys.take(i as int) =~= keys);
    }
    groups
}

/// The memory of the rows at `members`.
pub open spec fn member_sum(rows: Seq<(u64, u64, u64)>, members: Seq<int>) -> int
    decreases members.len(),
{
    if members.len() == 0 {
        0
    } else {
        member_sum(rows, members.drop_last()) + rows[members.last()].2
    }
}

/// What a group is made of: its memory is that of its rows; its first row
/// is a process of its id whose parent is process 1; every other row is a
/// child of it.
pub open spec fn group_made_of(rows: Seq<(u64, u64, u64)>, g: (u64, int, Seq<int>)) -> bool {
    &&& g.2.len() > 0
    &&& forall|k: int| 0 <= k < g.2.len() ==> 0 <= #[trigger] g.2[k] < rows.len()
    &&& g.1 == member_sum(rows, g.2)
    &&& rows[g.2[0]].0 == g.0 && rows[g.2[0]].1 == 1
    &&& forall|k: int| 1 <= k < g.2.len() ==> rows[#[trigger] g.2[k]].1 == g.0
}

proof fn lemma_member_sum_frame(rows: Seq<(u64, u64, u64)>, members: Seq<int>)
    requires
        rows.len() > 0,
        forall|k: int| 0 <= k < members.len() ==> 0 <= #[trigger] members[k] < rows.len() - 1,
    ensures
        member_sum(rows, members) == member_sum(rows.drop_last(), members),
    decreases members.len(),
{
    if members.len() > 0 {
        let init = members.drop_last();
        assert forall|k: int| 0 <= k < init.len() implies 0 <= #[trigger] init[k] < rows.len() - 1 by {
            assert(init[k] == members[k]);
        }
        lemma_member_sum_frame(rows, init);
    }
}

/// Folding children into their parents keeps every process's memory: each
/// group holds the memory of exactly the rows it was made of, led by a
/// child of process 1 and followed by its own children.
pub proof fn law_group_memory(rows: Seq<(u64, u64, u64)>)
    ensures
        forall|j: int| 0 <= j < groups_spec(rows).len() ==> group_made_of(rows, #[trigger] groups_spec(rows)[j]),
    decreases rows.len(),
{
    if rows.len() > 0 {
        let prev_rows = rows.drop_last();
        law_group_memory(prev_rows);
        let g = groups_spec(prev_rows);
        let (pid, ppid, mem) = rows.last();
        let i = rows.len() - 1;
        let ng = groups_spec(rows);
        assert forall|j: int| 0 <= j < g.len() implies group_made_of(rows, #[trigger] g[j]) by {
            assert(group_made_of(prev_rows, g[j]));
            lemma_member_sum_frame(rows, g[j].2);
            assert forall|k: int| 0 <= k < g[j].2.len() implies prev_rows[#[trigger] g[j].2[k]] == rows[g[j].2[k]] by {}
        }
        if ppid == 1 {
            lemma_group_index_bounds(g, pid);
            let single = seq![i];
            assert(member_sum(rows, single) == member_sum(rows, single.drop_last()) + rows[i].2);
            assert(single.drop_last() =~= Seq::<int>::empty());
            assert(group_made_of(rows, (pid, mem as int, single)));
            assert forall|j: int| 0 <= j < ng.len() implies group_made_of(rows, #[trigger] ng[j]) by {
                if j < g.len() {
                    if group_index(g, pid) != Some(j) {
                        assert(ng[j] == g[j]);
                    }
                }
            }
        } else {
            lemma_group_index_bounds(g, ppid);
            match group_index(g, ppid) {
                Some(j0) => {
                    let old_g = g[j0];
                    let new_g = (old_g.0, old_g.1 + mem, old_g.2.push(i));
                    assert(new_g.2.drop_last() =~= old_g.2);
                    assert(group_made_of(rows, old_g));
                    assert forall|k: int| 0 <= k < new_g.2.len() implies 0 <= #[trigger] new_g.2[k] < rows.len() by {
                        if k < old_g.2.len() {
                            assert(new_g.2[k] == old_g.2[k]);
                        }
                    }
                    assert forall|k: int| 1 <= k < new_g.2.len() implies rows[#[trigger] new_g.2[k]].1 == new_g.0 by {
                        if k < old_g.2.len() {
                            assert(new_g.2[k] == old_g.2[k]);
                        }
                    }
                    assert(new_g.2[0] == old_g.2[0]);
                    assert(group_made_of(rows, new_g));
                    assert forall|j: int| 0 <= j < ng.len() implies group_made_of(rows, #[trigger] ng[j]) by {
                        if j != j0 {
                            assert(ng[j] == g[j]);
                        }
                    }
                },
                None => {},
            }
        }
    }
}

// ------------------------------------------------------------- ordering

/// Whether the list is sorted by CPU: the filter reads `cpu` (else by
/// memory).
pub fn sort_by_cpu(filter: &str) -> (r: bool)
    ensures
        r == (filter@ == "cpu"@),
{
    same_str(filter, "cpu")
}

/// The groups by CPU (whole percent, given beside them) or by memory,
/// largest first; ties keep their order.
pub fn order_groups(groups: Vec<ProcessGroup>, by_cpu: bool, cpu: Vec<u64>) -> (r: Vec<ProcessGroup>)
    requires
        cpu.len() == groups.len(),
    ensures
        by_cpu ==> sorted_desc_from(r@, groups@, cpu@.map_values(|c: u64| c as u128)),
        !by_cpu ==> sorted_desc_from(r@, groups@, groups@.map_values(|g: ProcessGroup| g.mem)),
{
    let mut keys: Vec<u128> = Vec::new();
    let mut i: usize = 0;
    while i < groups.len()
        invariant
            i <= groups@.len(),
            cpu.len() == groups.len(),
            by_cpu ==> keys@ == cpu@.take(i as int).map_values(|c: u64| c as u128),
            !by_cpu ==> keys@ == groups@.take(i as int).map_values(|g: ProcessGroup| g.mem),
        decreases groups.len() - i,
    {
        if by_cpu {
            keys.push(cpu[i] as u128);
        } else {
            keys.push(groups[i].mem);
        }
        i = i + 1;
        proof {
            if by_cpu {
                assert(keys@ =~= cpu@.take(i as int).map_values(|c: u64| c as u128));
            } else {
                assert(keys@ =~= groups@.take(i as int).map_values(|g: ProcessGroup| g.mem));
            }
        }
    }
    proof {
        assert(cpu@.take(i as int) =~= cpu@);
        assert(groups@.take(i as int) =~= groups@);
    }
    sort_desc(groups, keys)
}

/// The sort filter of the task manager, as `(value, label)` pairs.
pub fn sort_options() -> (r: Vec<(String, String)>)
    ensures
        r@.map_values(|o: (String, String)| (o.0@, o.1@)) == seq![
            ("memory"@, "Sort by Memory"@),
            ("cpu"@, "Sort by CPU"@),
        ],
{
    let mut r: Vec<(String, String)> = Vec::new();
    r.push(("memory".to_string(), "Sort by Memory".to_string()));
    r.push(("cpu".to_string(), "Sort by CPU".to_string()));
    proof {
        assert(r@.map_values(|o: (String, String)| (o.0@, o.1@)) =~= seq![
            ("memory"@, "Sort by Memory"@),
            ("cpu"@, "Sort by CPU"@),
        ]);
    }
    r
}

// ------------------------------------------------------------- display

/// How a number of bytes is shown: gigabytes (from the megabyte count,
/// printed with two decimals), else whole megabytes, kilobytes or bytes,
/// counting in thousands.
#[derive(Clone, Copy, Debug, PartialEq, Eq, Structural)]
pub enum ByteSize {
    Gigabytes { megabytes: u64 },
    Megabytes(u64),
    Kilobytes(u64),
    Bytes(u64),
}

/// The unit `bytes` is shown in.
pub open spec fn byte_size_spec(bytes: u64) -> ByteSize {
    let kb = bytes / 1000;
    let mb = kb / 1000;
    if mb >= 1000 {
        ByteSize::Gigabytes { megabytes: mb }
    } else if mb > 0 {
        ByteSize::Megabytes(mb)
    } else if kb > 0 {
        ByteSize::Kilobytes(kb)
    } else {
        ByteSize::Bytes(bytes)
    }
}

/// The unit `bytes` is shown in (the choice `format_bytes` makes).
pub fn byte_size(bytes: u64) -> (r: ByteSize)
    ensures
        r == byte_size_spec(bytes),
{
    let kb = bytes / 1000;
    let mb = kb / 1000;
    if mb >= 1000 {
        ByteSize::Gigabytes { megabytes: mb }
    } else if mb > 0 {
        ByteSize::Megabytes(mb)
    } else if kb > 0 {
        ByteSize::Kilobytes(kb)
    } else {
        ByteSize::Bytes(bytes)
    }
}

/// `N MB`, `N KB` or `N B`; gigabytes are printed with two decimals by
/// the caller.
pub open spec fn size_label_spec(size: ByteSize) -> Option<Seq<char>> {
    match size {
        ByteSize::Gigabytes { .. } => None,
        ByteSize::Megabytes(n) => Some(decimal_spec(n as nat) + " MB"@),
        ByteSize::Kilobytes(n) => Some(decimal_spec(n as nat) + " KB"@),
        ByteSize::Bytes(n) => Some(decimal_spec(n as nat) + " B"@),
    }
}

/// The text of a size below a gigabyte.
pub fn size_label(size: ByteSize) -> (r: Option<String>)
    ensures
        match r {
            Some(s) => size_label_spec(size) == Some(s@),
            None => size_label_spec(size) is None,
        },
{
    match size {
        ByteSize::Gigabytes { .. } => None,
        ByteSize::Megabytes(n) => Some(str_concat(decimal(n).as_str(), " MB")),
        ByteSize::Kilobytes(n) => Some(str_concat(decimal(n).as_str(), " KB")),
        ByteSize::Bytes(n) => Some(str_concat(decimal(n).as_str(), " B")),
    }
}

/// What the application path of a command is found by: up to and with the
/// `.app` or `.prefPane` bundle that holds it.
pub open spec fn bundle_pattern() -> Seq<char> {
    "(.+\\.(?:prefPane|app))(?:/.*)?$"@
}

/// What `regex::Regex` finds: for a pattern that compiles, the text of
/// capture group `group` of the leftmost-first match in `haystack`; `None`
/// where the pattern does not compile, nothing matches, or the group took
/// no part in the match.
pub uninterp spec fn regex_capture(pattern: Seq<char>, haystack: Seq<char>, group: nat) -> Option<Seq<char>>;

/// `Regex::new(pattern)`, then `captures(haystack)` and `get(group)`;
/// claimed: the result is `regex_capture(pattern, haystack, group)`, a
/// function of the three alone. Regex matching itself is not stated.
#[verifier::external_body]
fn capture(pattern: &str, haystack: &str, group: usize) -> (r: Option<String>)
    ensures
        match r {
            Some(s) => regex_capture(pattern@, haystack@, group as nat) == Some(s@),
            None => regex_capture(pattern@, haystack@, group as nat) is None,
        },
{
    let re = regex::Regex::new(pattern).ok()?;
    re.captures(haystack).and_then(|c| c.get(group)).map(|m| m.as_str().to_string())
}

/// The application bundle a command runs from, or the empty string.
pub open spec fn bundle_path_spec(name: Seq<char>) -> Seq<char> {
    match regex_capture(bundle_pattern(), name, 1) {
        Some(p) => p,
        None => Seq::empty(),
    }
}

/// The bundle a command runs from (`.app` or `.prefPane`), or `""`.
pub fn bundle_path(name: &str) -> (r: String)
    ensures
        r@ == bundle_path_spec(name@),
{
    proof {
        reveal_strlit("(.+\\.(?:prefPane|app))(?:/.*)?$");
    }
    match capture("(.+\\.(?:prefPane|app))(?:/.*)?$", name, 1) {
        Some(p) => p,
        None => String::new(),
    }
}

/// The last `/`-separated part of `name`.
pub open spec fn base_name_spec(name: Seq<char>) -> Seq<char> {
    split_from(name, "/"@, 0).last()
}

/// The name shown for a command that is no application: its last path
/// component (`split('/').last()`).
pub fn base_name(name: &str) -> (r: String)
    ensures
        r@ == base_name_spec(name@),
{
    proof {
        reveal_strlit("/");
        crate::strs::lemma_split_from_nonempty(name@, "/"@, 0);
    }
    let parts = split(name, "/");
    let n = parts.len();
    proof {
        assert(parts@.map_values(|p: String| p@).len() == parts@.len());
        assert(parts@.map_values(|p: String| p@)[n - 1] == parts@[n - 1]@);
    }
    parts[n - 1].clone()
}

/// The entry of a process (item id `id`) shown as `name`: found by the
/// name, with the action Kill Process.
pub fn process_entry(id: u64, name: &str) -> (r: Item)
    ensures
        r.id == id,
        r.keywords@.map_values(|k: String| k@) == seq![name@],
        r.actions@.len() == 1,
        action_is(r.actions@[0], "Kill Process"@, None),
        !r.preview,
        r.weight is None,
{
    let mut keywords: Vec<String> = Vec::new();
    keywords.push(name.to_string());
    let mut actions: Vec<Action> = Vec::new();
    actions.push(Action::new("Kill Process", None, false));
    proof {
        assert(keywords@.map_values(|k: String| k@) =~= seq![name@]);
    }
    ItemBuilder::new(id).keywords(keywords).actions(actions).build()
}

} // verus!

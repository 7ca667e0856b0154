//! The scan of one process, descriptor by descriptor, and the gathering of the results.

use vstd::prelude::*;
use crate::classify::classify;
use crate::classify::entry_of;
use crate::filter::both;
use crate::filter::disjoint;
use crate::filter::lemma_filters_intersect;
use crate::model::entry_views;
use crate::model::FdEntry;
use crate::model::FdEntryView;
use crate::model::ProcessInfo;
use crate::model::SocketInfoView;
use crate::opts::Args;
use crate::sockets::SocketTable;
use crate::text::decimal_text;
use crate::text::push_decimal;
use crate::trusted::lookup_user_name;
use crate::walker::fd_ref;
use crate::walker::gives_fd;
use crate::walker::name_number;
use crate::walker::raw_fields;
use crate::walker::RawFd;

verus! {

/// The most workers that a scan is spread over.
pub const MAX_THREADS: usize = 8;

/// How many workers to use on a machine with the given number of cores, one where the
/// number is not known: no more than there are cores, and no more than eight.
pub fn worker_count(cores: Option<usize>) -> (r: usize)
    ensures
        r == (match cores {
            Some(n) => if n < MAX_THREADS {
                n
            } else {
                MAX_THREADS
            },
            None => 1,
        }),
{
    match cores {
        Some(n) => if n < MAX_THREADS {
            n
        } else {
            MAX_THREADS
        },
        None => 1,
    }
}

/// The name that a user is reported by: the name that the user database gave, or the uid in
/// decimal where it gave none.
pub fn user_label(found: Option<String>, uid: u32) -> (r: String)
    ensures
        r@ == (match found {
            Some(name) => name@,
            None => decimal_text(uid as nat),
        }),
{
    match found {
        Some(name) => name,
        None => {
            let mut out = String::new();
            push_decimal(&mut out, uid as u64);
            out
        },
    }
}

/// The name that the user with the given uid is reported by. The user database of the
/// machine decides, so nothing is promised of the name here: `user_label` says what is made
/// of each answer.
pub fn resolve_user(uid: u32) -> String {
    user_label(lookup_user_name(uid), uid)
}

/// The entry for an entry of a descriptor directory that gives a descriptor.
pub open spec fn raw_entry(
    process: ProcessInfo,
    user: Seq<char>,
    raw: RawFd,
    table: Map<u64, SocketInfoView>,
) -> FdEntryView {
    entry_of(
        process,
        user,
        name_number(raw.name@)->0,
        raw.link->0@,
        raw_fields(raw.fdinfo),
        table,
    )
}

/// The entries of a process whose descriptor directory was read as given: in the order of
/// the directory, one for each descriptor that could be read and passes the filters.
pub open spec fn scanned(
    args: Args,
    process: ProcessInfo,
    user: Seq<char>,
    raws: Seq<RawFd>,
    table: Map<u64, SocketInfoView>,
) -> Seq<FdEntryView>
    decreases raws.len(),
{
    if raws.len() == 0 {
        Seq::empty()
    } else {
        let head = scanned(args, process, user, raws.drop_last(), table);
        let e = raw_entry(process, user, raws.last(), table);
        if gives_fd(raws.last()) && args.entry_passes(e) {
            head.push(e)
        } else {
            head
        }
    }
}

/// Every entry of a scan is one of the process scanned: it carries its pid and its command
/// name, and it passes the filters.
pub proof fn lemma_scanned_entries(
    args: Args,
    process: ProcessInfo,
    user: Seq<char>,
    raws: Seq<RawFd>,
    table: Map<u64, SocketInfoView>,
)
    ensures
        scanned(args, process, user, raws, table).len() <= raws.len(),
        forall|i: int|
            0 <= i < scanned(args, process, user, raws, table).len() ==> {
                let e = #[trigger] scanned(args, process, user, raws, table)[i];
                e.pid == process.pid && e.name == process.comm@ && e.user == user
                    && args.entry_passes(e)
            },
    decreases raws.len(),
{
    if raws.len() > 0 {
        lemma_scanned_entries(args, process, user, raws.drop_last(), table);
    }
}

/// A process whose links could no longer be read, because it ended after its directory was
/// listed, has no entries.
pub proof fn lemma_gone_process(
    args: Args,
    process: ProcessInfo,
    user: Seq<char>,
    raws: Seq<RawFd>,
    table: Map<u64, SocketInfoView>,
)
    requires
        forall|i: int| 0 <= i < raws.len() ==> (#[trigger] raws[i]).link is None,
    ensures
        scanned(args, process, user, raws, table) == Seq::<FdEntryView>::empty(),
    decreases raws.len(),
{
    if raws.len() > 0 {
        lemma_gone_process(args, process, user, raws.drop_last(), table);
    }
}

/// The entries of a process: none where the process does not pass the filters on processes.
pub open spec fn scan_result(
    args: Args,
    process: ProcessInfo,
    user: Seq<char>,
    raws: Seq<RawFd>,
    table: Map<u64, SocketInfoView>,
) -> Seq<FdEntryView> {
    if args.process_passes(&process) {
        scanned(args, process, user, raws, table)
    } else {
        Seq::empty()
    }
}

/// An entry is among those of a scan exactly when some descriptor that could be read gives
/// it and it passes the filters.
pub proof fn lemma_scanned_contains(
    args: Args,
    process: ProcessInfo,
    user: Seq<char>,
    raws: Seq<RawFd>,
    table: Map<u64, SocketInfoView>,
    e: FdEntryView,
)
    ensures
        scanned(args, process, user, raws, table).contains(e) <==> args.entry_passes(e) && exists|
            i: int,
        |
            0 <= i < raws.len() && gives_fd(#[trigger] raws[i]) && raw_entry(
                process,
                user,
                raws[i],
                table,
            ) == e,
    decreases raws.len(),
{
    let all = scanned(args, process, user, raws, table);
    if raws.len() > 0 {
        let init = raws.drop_last();
        let head = scanned(args, process, user, init, table);
        let last = raw_entry(process, user, raws.last(), table);
        let kept = gives_fd(raws.last()) && args.entry_passes(last);
        lemma_scanned_contains(args, process, user, init, table, e);
        if all.contains(e) {
            let m = choose|m: int| 0 <= m < all.len() && all[m] == e;
            if kept && m == all.len() - 1 {
                assert(gives_fd(raws[raws.len() - 1]));
            } else {
                assert(head[m] == e);
                let i = choose|i: int|
                    0 <= i < init.len() && gives_fd(#[trigger] init[i]) && raw_entry(
                        process,
                        user,
                        init[i],
                        table,
                    ) == e;
                assert(gives_fd(raws[i]));
            }
        }
        if args.entry_passes(e) && exists|i: int|
            0 <= i < raws.len() && gives_fd(#[trigger] raws[i]) && raw_entry(
                process,
                user,
                raws[i],
                table,
            ) == e {
            let i = choose|i: int|
                0 <= i < raws.len() && gives_fd(#[trigger] raws[i]) && raw_entry(
                    process,
                    user,
                    raws[i],
                    table,
                ) == e;
            if i == raws.len() - 1 {
                assert(all[all.len() - 1] == e);
            } else {
                assert(gives_fd(init[i]));
                let m = choose|m: int| 0 <= m < head.len() && head[m] == e;
                assert(all[m] == e);
            }
        }
    }
}

/// Filters that share no setting combine to the conjunction: the entries of a scan under the
/// filters of both are those that the scan gives under the filters of each.
pub proof fn lemma_scan_intersect(
    a: Args,
    b: Args,
    process: ProcessInfo,
    user: Seq<char>,
    raws: Seq<RawFd>,
    table: Map<u64, SocketInfoView>,
    e: FdEntryView,
)
    requires
        disjoint(a, b),
    ensures
        scan_result(both(a, b), process, user, raws, table).contains(e) <==> scan_result(
            a,
            process,
            user,
            raws,
            table,
        ).contains(e) && scan_result(b, process, user, raws, table).contains(e),
{
    lemma_filters_intersect(a, b, process, e);
    lemma_scanned_contains(a, process, user, raws, table, e);
    lemma_scanned_contains(b, process, user, raws, table, e);
    lemma_scanned_contains(both(a, b), process, user, raws, table, e);
}

/// Scans one process: nothing where the process does not pass the filters on processes,
/// else its descriptors in the order given, each that could be read and passes the filters.
pub fn scan_process(
    args: &Args,
    process: &ProcessInfo,
    user: &str,
    raws: &Vec<RawFd>,
    table: &SocketTable,
) -> (r: Vec<FdEntry>)
    ensures
        args.plain_cmd() ==> entry_views(r@) == scan_result(
            *args,
            *process,
            user@,
            raws@,
            table@,
        ),
        entry_views(r@) == scanned(*args, *process, user@, raws@, table@) || r@.len() == 0,
        !args.ids_pass(process) ==> r@.len() == 0,
        forall|i: int|
            0 <= i < r@.len() ==> (#[trigger] r@[i]).pid == process.pid && r@[i].name@
                == process.comm@,
{
    let mut out: Vec<FdEntry> = Vec::new();
    assert(entry_views(out@) =~= Seq::empty());
    if !args.filter_process(process) {
        return out;
    }
    let mut i: usize = 0;
    while i < raws.len()
        invariant
            i <= raws@.len(),
            entry_views(out@) == scanned(*args, *process, user@, raws@.take(i as int), table@),
            forall|k: int|
                0 <= k < out@.len() ==> (#[trigger] out@[k]).pid == process.pid && out@[k].name@
                    == process.comm@,
        decreases raws@.len() - i,
    {
        proof {
            assert(raws@.take(i + 1).drop_last() =~= raws@.take(i as int));
            assert(raws@.take(i + 1).last() == raws@[i as int]);
        }
        match fd_ref(process.pid, &raws[i]) {
            Some(fd) => {
                let entry = classify(process, user, &fd, table);
                if args.filter_entry(&entry) {
                    let ghost before = out@;
                    let ghost e = entry@;
                    out.push(entry);
                    assert(entry_views(out@) =~= entry_views(before).push(e));
                }
            },
            None => {},
        }
        i += 1;
    }
    assert(raws@.take(raws@.len() as int) =~= raws@);
    out
}

/// The entries of all groups, one group after the other.
pub open spec fn concat_all(groups: Seq<Seq<FdEntryView>>) -> Seq<FdEntryView>
    decreases groups.len(),
{
    if groups.len() == 0 {
        Seq::empty()
    } else {
        concat_all(groups.drop_last()) + groups.last()
    }
}

/// The views of the entries of each group.
pub open spec fn group_views(groups: Seq<Vec<FdEntry>>) -> Seq<Seq<FdEntryView>> {
    groups.map_values(|g: Vec<FdEntry>| entry_views(g@))
}

/// Gathers the entries that the scans of the processes gave into one list.
pub fn merge(groups: Vec<Vec<FdEntry>>) -> (r: Vec<FdEntry>)
    ensures
        entry_views(r@) == concat_all(group_views(groups@)),
{
    let ghost all = groups@;
    let mut rest = groups;
    let mut reversed: Vec<Vec<FdEntry>> = Vec::new();
    while rest.len() > 0
        invariant
            rest@.len() + reversed@.len() == all.len(),
            rest@ == all.take(rest@.len() as int),
            forall|j: int|
                0 <= j < reversed@.len() ==> #[trigger] reversed@[j] == all[all.len() - 1 - j],
        decreases rest@.len(),
    {
        match rest.pop() {
            Some(group) => {
                reversed.push(group);
            },
            None => {},
        }
        assert(rest@ =~= all.take(rest@.len() as int));
    }
    let mut out: Vec<FdEntry> = Vec::new();
    assert(group_views(all.take(0)) =~= Seq::empty());
    assert(entry_views(out@) =~= Seq::empty());
    while reversed.len() > 0
        invariant
            reversed@.len() <= all.len(),
            forall|j: int|
                0 <= j < reversed@.len() ==> #[trigger] reversed@[j] == all[all.len() - 1 - j],
            entry_views(out@) == concat_all(group_views(all.take(all.len() - reversed@.len()))),
        decreases reversed@.len(),
    {
        let ghost done = all.len() - reversed@.len();
        let ghost before = out@;
        let ghost next = reversed@[reversed@.len() - 1];
        assert(next == all[done]);
        let mut group = match reversed.pop() {
            Some(g) => g,
            None => Vec::new(),
        };
        out.append(&mut group);
        proof {
            assert(entry_views(out@) =~= entry_views(before) + entry_views(next@));
            assert(group_views(all.take(done + 1)).drop_last() =~= group_views(all.take(done)));
            assert(group_views(all.take(done + 1)).last() == entry_views(next@));
        }
    }
    assert(all.take(all.len() as int) =~= all);
    out
}

} // verus!

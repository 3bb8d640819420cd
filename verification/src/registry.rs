//! What the writes of CDI specs do to the shared host registry.
#![allow(unused_imports)]

use vstd::prelude::*;

use crate::cdi::{self, WriteActionView, WriterView};
use crate::{text, vfio};

verus! {

/// The files of a file system: the contents at each path.
pub type Files = Map<Seq<char>, Seq<char>>;

/// What a reader of `path` finds.
pub open spec fn read(files: Files, path: Seq<char>) -> Option<Seq<char>> {
    if files.contains_key(path) {
        Some(files[path])
    } else {
        None
    }
}

/// Whether `after` may be what `action` leaves of `before`. A write that failed, or is still
/// under way, may have left anything at its path; a move happens at once or not at all.
pub open spec fn performed(
    action: WriteActionView,
    succeeded: bool,
    before: Files,
    after: Files,
) -> bool {
    match action {
        WriteActionView::CreateDirAll { .. } => after == before,
        WriteActionView::Write { path, contents } => if succeeded {
            after == before.insert(path, contents)
        } else {
            after.remove(path) == before.remove(path)
        },
        WriteActionView::Rename { from, to } => if succeeded {
            before.contains_key(from) && after == before.remove(from).insert(to, before[from])
        } else {
            after == before
        },
        WriteActionView::Remove { path } => if succeeded {
            after == before.remove(path)
        } else {
            after == before
        },
        WriteActionView::Finish(_) => after == before,
    }
}

/// What holds of the files before each action of a write: its own bytes are where it left them.
pub open spec fn write_in_order(writer: WriterView, files: Files) -> bool {
    &&& writer.tmp_path != writer.path
    &&& writer.step is Rename ==> read(files, writer.tmp_path) == Some(writer.contents)
}

/// A reader of the registry never sees a torn spec: whatever an action of a write leaves behind,
/// the spec's path reads as before or as the whole new spec, and no path but that and the write's
/// own changes. A write that ends well has put the whole new spec in place.
pub proof fn law_no_torn_spec(
    writer: WriterView,
    succeeded: bool,
    before: Files,
    after: Files,
)
    requires
        write_in_order(writer, before),
        performed(writer.action(), succeeded, before, after),
    ensures
        write_in_order(writer.after(succeeded), after),
        read(after, writer.path) == read(before, writer.path) || read(after, writer.path) == Some(
            writer.contents,
        ),
        !(writer.step is Rename && succeeded) ==> read(after, writer.path) == read(
            before,
            writer.path,
        ),
        forall|path: Seq<char>|
            path != writer.path && path != writer.tmp_path ==> #[trigger] read(after, path) == read(
                before,
                path,
            ),
        writer.step is Rename && succeeded ==> read(after, writer.path) == Some(writer.contents)
            && read(after, writer.tmp_path) is None,
{
    assert forall|path: Seq<char>| path != writer.tmp_path && writer.step is WriteTmp implies read(
        after,
        path,
    ) == read(before, path) by {
        assert(after.remove(writer.tmp_path).contains_key(path) == after.contains_key(path));
        assert(before.remove(writer.tmp_path).contains_key(path) == before.contains_key(path));
        if !succeeded && after.contains_key(path) {
            assert(after.remove(writer.tmp_path)[path] == before.remove(writer.tmp_path)[path]);
        }
    }
}

/// A write starts in order, whatever the files are.
pub proof fn law_write_starts_in_order(
    cdi_dir: Seq<char>,
    resource_name: Seq<char>,
    contents: Seq<char>,
    pid: u32,
    seq: u64,
    files: Files,
)
    ensures
        write_in_order(
            WriterView::start(cdi_dir, resource_name, contents, pid, seq),
            files,
        ),
{
    law_tmp_path_is_no_spec(
        cdi::path_of_spec(cdi_dir, resource_name),
        pid,
        seq,
        cdi_dir,
        resource_name,
    );
}

/// A write comes to its end in four actions or fewer, and ends well iff the directory, the bytes
/// and the move all did.
pub proof fn law_write_ends(
    cdi_dir: Seq<char>,
    resource_name: Seq<char>,
    contents: Seq<char>,
    pid: u32,
    seq: u64,
    made: bool,
    written: bool,
    moved: bool,
    removed: bool,
)
    ensures
        WriterView::start(cdi_dir, resource_name, contents, pid, seq).after(made).after(
            written,
        ).after(moved).after(removed).step == cdi::WriteStep::Done(
            if !made {
                cdi::WriteOutcome::NoDirectory
            } else if !written {
                cdi::WriteOutcome::NotWritten
            } else if !moved {
                cdi::WriteOutcome::NotRenamed
            } else {
                cdi::WriteOutcome::Written
            },
        ),
{
}

/// Writes that are under way at once leave each other's bytes alone: no action of one disturbs
/// another that was started with another process number or another count.
pub proof fn law_writes_apart(
    one: WriterView,
    other: WriterView,
    dir1: Seq<char>,
    dir2: Seq<char>,
    name1: Seq<char>,
    name2: Seq<char>,
    id1: (u32, u64),
    id2: (u32, u64),
    succeeded: bool,
    before: Files,
    after: Files,
)
    requires
        id1 != id2,
        one.path == cdi::path_of_spec(dir1, name1),
        one.tmp_path == cdi::path_of_tmp(one.path, id1.0, id1.1),
        other.path == cdi::path_of_spec(dir2, name2),
        other.tmp_path == cdi::path_of_tmp(other.path, id2.0, id2.1),
        write_in_order(one, before),
        write_in_order(other, before),
        performed(other.action(), succeeded, before, after),
    ensures
        write_in_order(one, after),
        read(after, one.tmp_path) == read(before, one.tmp_path),
{
    law_no_torn_spec(other, succeeded, before, after);
    law_tmp_path_is_no_spec(one.path, id1.0, id1.1, dir2, name2);
    if one.tmp_path == other.tmp_path {
        law_tmp_paths_distinct(one.path, id1.0, id1.1, other.path, id2.0, id2.1);
    }
}

/// One call that started a write: what it was to write, where, and by which numbers it goes.
pub struct WriteCall {
    pub cdi_dir: Seq<char>,
    pub resource_name: Seq<char>,
    pub contents: Seq<char>,
    pub pid: u32,
    pub seq: u64,
}

impl WriteCall {
    /// The write that the call started.
    pub open spec fn start(self) -> WriterView {
        WriterView::start(self.cdi_dir, self.resource_name, self.contents, self.pid, self.seq)
    }
}

/// Whether no two calls have both their numbers in common.
pub open spec fn ids_distinct(calls: Seq<WriteCall>) -> bool {
    forall|i: int, j: int|
        #![trigger calls[i], calls[j]]
        0 <= i < j < calls.len() ==> (calls[i].pid, calls[i].seq) != (calls[j].pid, calls[j].seq)
}

/// Whether the write `turn` may take the writes and the files from `before` to `after`: its next
/// action was tried, with this success, and it took note of that; or its bytes are still under
/// way.
pub open spec fn takes_turn(
    turn: (int, bool),
    before: (Seq<WriterView>, Files),
    after: (Seq<WriterView>, Files),
) -> bool {
    let (w, succeeded) = turn;
    &&& 0 <= w < before.0.len()
    &&& performed(before.0[w].action(), succeeded, before.1, after.1)
    &&& {
        ||| after.0 == before.0.update(w, before.0[w].after(succeeded))
        ||| before.0[w].step is WriteTmp && !succeeded && after.0 == before.0
    }
}

/// Whether `writers` and `files` can be the history of the writes of `calls`, with the turns
/// `done` in this order: at each moment, how far every write has come and what the files are.
pub open spec fn interleaved(
    calls: Seq<WriteCall>,
    writers: Seq<Seq<WriterView>>,
    files: Seq<Files>,
    done: Seq<(int, bool)>,
) -> bool {
    &&& writers.len() == done.len() + 1
    &&& files.len() == done.len() + 1
    &&& writers[0] == calls.map_values(|call: WriteCall| call.start())
    &&& forall|t: int|
        0 <= t < done.len() ==> takes_turn(
            #[trigger] done[t],
            (writers[t], files[t]),
            (writers[t + 1], files[t + 1]),
        )
}

/// Whether the write `i` was for the spec at `path` and ended well.
pub open spec fn ended_well(writers: Seq<WriterView>, i: int, path: Seq<char>) -> bool {
    &&& 0 <= i < writers.len()
    &&& writers[i].path == path
    &&& writers[i].step == cdi::WriteStep::Done(cdi::WriteOutcome::Written)
}

/// Whether the spec at `path` is the whole text of a write that ended well.
pub open spec fn holds_one(writers: Seq<WriterView>, files: Files, path: Seq<char>) -> bool {
    exists|i: int| #[trigger]
        ended_well(writers, i, path) && read(files, path) == Some(writers[i].contents)
}

/// One turn in a history of the registry: of a write, or of a plugin that removes a spec, as a
/// stream does when the last device vanishes and a run does on shutdown.
pub enum Turn {
    /// The write `writer` tries its next action.
    Write { writer: int, succeeded: bool },
    /// The spec of `resource_name` in `cdi_dir` is to be removed.
    RemoveSpec { cdi_dir: Seq<char>, resource_name: Seq<char>, succeeded: bool },
}

/// Whether `turn` may take the writes and the files from `before` to `after`.
pub open spec fn happens(
    turn: Turn,
    before: (Seq<WriterView>, Files),
    after: (Seq<WriterView>, Files),
) -> bool {
    match turn {
        Turn::Write { writer, succeeded } => takes_turn((writer, succeeded), before, after),
        Turn::RemoveSpec { cdi_dir, resource_name, succeeded } => {
            &&& performed(
                WriteActionView::Remove { path: cdi::path_of_spec(cdi_dir, resource_name) },
                succeeded,
                before.1,
                after.1,
            )
            &&& after.0 == before.0
        },
    }
}

/// Whether `writers` and `files` can be the history of the writes of `calls`, with the turns
/// `turns` in this order, removals of specs among them.
pub open spec fn interleaved_with_removals(
    calls: Seq<WriteCall>,
    writers: Seq<Seq<WriterView>>,
    files: Seq<Files>,
    turns: Seq<Turn>,
) -> bool {
    &&& writers.len() == turns.len() + 1
    &&& files.len() == turns.len() + 1
    &&& writers[0] == calls.map_values(|call: WriteCall| call.start())
    &&& forall|t: int|
        0 <= t < turns.len() ==> happens(
            #[trigger] turns[t],
            (writers[t], files[t]),
            (writers[t + 1], files[t + 1]),
        )
}

/// Whether `turn` removed the spec at `path`.
pub open spec fn removes(turn: Turn, path: Seq<char>) -> bool {
    match turn {
        Turn::Write { .. } => false,
        Turn::RemoveSpec { cdi_dir, resource_name, succeeded } => succeeded && path
            == cdi::path_of_spec(cdi_dir, resource_name),
    }
}

/// Whether one of the first `t` turns removed the spec at `path`.
pub open spec fn removed_before(turns: Seq<Turn>, t: int, path: Seq<char>) -> bool {
    exists|k: int| 0 <= k < t && #[trigger] removes(turns[k], path)
}

/// Whether some write was for the spec at `path` and ended well.
pub open spec fn any_ended_well(writers: Seq<WriterView>, path: Seq<char>) -> bool {
    exists|i: int| #[trigger] ended_well(writers, i, path)
}

/// Whether every write is the one that its call started, and finds its own bytes where it left
/// them.
pub open spec fn writes_in_order(
    calls: Seq<WriteCall>,
    writers: Seq<WriterView>,
    files: Files,
) -> bool {
    &&& writers.len() == calls.len()
    &&& forall|i: int|
        0 <= i < writers.len() ==> (WriterView {
            step: calls[i].start().step,
            ..#[trigger] writers[i]
        }) == calls[i].start()
    &&& forall|i: int| 0 <= i < writers.len() ==> #[trigger] write_in_order(writers[i], files)
}

/// Whether the spec at `path` is what it should be: as it was in the beginning until a write has
/// ended well or the spec was removed; then the whole text of a write that ended well, or
/// nothing, the latter only where it was removed.
pub open spec fn spec_in_order(
    path: Seq<char>,
    first: Files,
    removed: bool,
    writers: Seq<WriterView>,
    files: Files,
) -> bool {
    if removed || any_ended_well(writers, path) {
        holds_one(writers, files, path) || removed && read(files, path) is None
    } else {
        read(files, path) == read(first, path)
    }
}

proof fn lemma_turn_keeps_writes(
    calls: Seq<WriteCall>,
    turn: Turn,
    before: (Seq<WriterView>, Files),
    after: (Seq<WriterView>, Files),
)
    requires
        ids_distinct(calls),
        writes_in_order(calls, before.0, before.1),
        happens(turn, before, after),
    ensures
        writes_in_order(calls, after.0, after.1),
{
    assert forall|i: int| 0 <= i < after.0.len() implies #[trigger] write_in_order(
        after.0[i],
        after.1,
    ) by {
        assert(write_in_order(before.0[i], before.1));
        match turn {
            Turn::Write { writer: w, succeeded } => {
                assert(write_in_order(before.0[w], before.1));
                law_no_torn_spec(before.0[w], succeeded, before.1, after.1);
                if i != w {
                    assert(after.0[i] == before.0[i]);
                    law_writes_apart(
                        before.0[i],
                        before.0[w],
                        calls[i].cdi_dir,
                        calls[w].cdi_dir,
                        calls[i].resource_name,
                        calls[w].resource_name,
                        (calls[i].pid, calls[i].seq),
                        (calls[w].pid, calls[w].seq),
                        succeeded,
                        before.1,
                        after.1,
                    );
                }
            },
            Turn::RemoveSpec { cdi_dir, resource_name, .. } => {
                law_tmp_path_is_no_spec(
                    before.0[i].path,
                    calls[i].pid,
                    calls[i].seq,
                    cdi_dir,
                    resource_name,
                );
            },
        }
    }
    assert forall|i: int| 0 <= i < after.0.len() implies (WriterView {
        step: calls[i].start().step,
        ..#[trigger] after.0[i]
    }) == calls[i].start() by {
        assert((WriterView { step: calls[i].start().step, ..before.0[i] }) == calls[i].start());
    }
}

proof fn lemma_turn_keeps_spec(
    calls: Seq<WriteCall>,
    cdi_dir: Seq<char>,
    resource_name: Seq<char>,
    first: Files,
    removed: bool,
    turn: Turn,
    before: (Seq<WriterView>, Files),
    after: (Seq<WriterView>, Files),
)
    requires
        writes_in_order(calls, before.0, before.1),
        spec_in_order(
            cdi::path_of_spec(cdi_dir, resource_name),
            first,
            removed,
            before.0,
            before.1,
        ),
        happens(turn, before, after),
    ensures
        spec_in_order(
            cdi::path_of_spec(cdi_dir, resource_name),
            first,
            removed || removes(turn, cdi::path_of_spec(cdi_dir, resource_name)),
            after.0,
            after.1,
        ),
{
    let path = cdi::path_of_spec(cdi_dir, resource_name);
    let moved = match turn {
        Turn::Write { writer, succeeded } => before.0[writer].step is Rename && succeeded
            && before.0[writer].path == path,
        Turn::RemoveSpec { .. } => false,
    };
    if let Turn::Write { writer: w, succeeded } = turn {
        assert(write_in_order(before.0[w], before.1));
        law_no_torn_spec(before.0[w], succeeded, before.1, after.1);
        law_tmp_path_is_no_spec(
            before.0[w].path,
            calls[w].pid,
            calls[w].seq,
            cdi_dir,
            resource_name,
        );
        assert(before.0[w].tmp_path != path);
        if moved {
            assert(ended_well(after.0, w, path));
        }
    }
    if !moved && !removes(turn, path) {
        assert(read(after.1, path) == read(before.1, path));
        assert forall|i: int| #[trigger] ended_well(after.0, i, path) == ended_well(
            before.0,
            i,
            path,
        ) by {}
        if holds_one(before.0, before.1, path) {
            let i = choose|i: int| #[trigger]
                ended_well(before.0, i, path) && read(before.1, path) == Some(
                    before.0[i].contents,
                );
            assert(ended_well(after.0, i, path));
        }
    }
}

proof fn lemma_history_in_order(
    calls: Seq<WriteCall>,
    cdi_dir: Seq<char>,
    resource_name: Seq<char>,
    writers: Seq<Seq<WriterView>>,
    files: Seq<Files>,
    turns: Seq<Turn>,
    t: int,
)
    requires
        ids_distinct(calls),
        interleaved_with_removals(calls, writers, files, turns),
        0 <= t < files.len(),
    ensures
        writes_in_order(calls, writers[t], files[t]),
        spec_in_order(
            cdi::path_of_spec(cdi_dir, resource_name),
            files[0],
            removed_before(turns, t, cdi::path_of_spec(cdi_dir, resource_name)),
            writers[t],
            files[t],
        ),
    decreases t,
{
    let path = cdi::path_of_spec(cdi_dir, resource_name);
    if t == 0 {
        assert forall|i: int| 0 <= i < calls.len() implies #[trigger] write_in_order(
            writers[0][i],
            files[0],
        ) by {
            law_write_starts_in_order(
                calls[i].cdi_dir,
                calls[i].resource_name,
                calls[i].contents,
                calls[i].pid,
                calls[i].seq,
                files[0],
            );
        }
        assert forall|i: int| !(#[trigger] ended_well(writers[0], i, path)) by {
            if 0 <= i < calls.len() {
                assert(writers[0][i] == calls[i].start());
            }
        }
    } else {
        let (turn, before, after) = (
            turns[t - 1],
            (writers[t - 1], files[t - 1]),
            (writers[t], files[t]),
        );
        lemma_history_in_order(calls, cdi_dir, resource_name, writers, files, turns, t - 1);
        assert(happens(turn, before, after));
        lemma_turn_keeps_writes(calls, turn, before, after);
        lemma_turn_keeps_spec(
            calls,
            cdi_dir,
            resource_name,
            files[0],
            removed_before(turns, t - 1, path),
            turn,
            before,
            after,
        );
        assert(removed_before(turns, t, path) == (removed_before(turns, t - 1, path) || removes(
            turn,
            path,
        ))) by {
            if removed_before(turns, t, path) {
                let k = choose|k: int| 0 <= k < t && #[trigger] removes(turns[k], path);
                if k < t - 1 {
                    assert(removes(turns[k], path));
                }
            }
        }
    }
}

/// Any number of writes may be under way at once while specs are removed, all in any order, as
/// long as no two writes have both their numbers in common. At every moment a reader of a spec
/// finds it as it was in the beginning, or no spec at all, or the whole text of one write that
/// ended well: never a torn one. It is gone only if it was gone in the beginning or was removed,
/// and once it was removed or written anew it never reads as in the beginning again, unless a
/// write put the same text there. Every write finds its own bytes where it left them.
pub proof fn law_writes_and_removals(
    calls: Seq<WriteCall>,
    cdi_dir: Seq<char>,
    resource_name: Seq<char>,
    writers: Seq<Seq<WriterView>>,
    files: Seq<Files>,
    turns: Seq<Turn>,
    t: int,
)
    requires
        ids_distinct(calls),
        interleaved_with_removals(calls, writers, files, turns),
        0 <= t < files.len(),
    ensures
        ({
            let path = cdi::path_of_spec(cdi_dir, resource_name);
            ||| read(files[t], path) == read(files[0], path)
            ||| read(files[t], path) is None
            ||| holds_one(writers[t], files[t], path)
        }),
        spec_in_order(
            cdi::path_of_spec(cdi_dir, resource_name),
            files[0],
            removed_before(turns, t, cdi::path_of_spec(cdi_dir, resource_name)),
            writers[t],
            files[t],
        ),
        writes_in_order(calls, writers[t], files[t]),
{
    lemma_history_in_order(calls, cdi_dir, resource_name, writers, files, turns, t);
}

/// Any number of writes may be under way at once, their actions in any order, as long as no two
/// have both their numbers in common. At every moment a reader of a spec finds it as it was in
/// the beginning, or the whole text of one write that ended well; and once any write of that
/// spec has ended well, the whole text of one that did. No two writes use one path on the way,
/// and each keeps the path and the text that it was started with.
pub proof fn law_concurrent_writes(
    calls: Seq<WriteCall>,
    cdi_dir: Seq<char>,
    resource_name: Seq<char>,
    writers: Seq<Seq<WriterView>>,
    files: Seq<Files>,
    done: Seq<(int, bool)>,
    t: int,
)
    requires
        ids_distinct(calls),
        interleaved(calls, writers, files, done),
        0 <= t < files.len(),
    ensures
        ({
            let path = cdi::path_of_spec(cdi_dir, resource_name);
            ||| read(files[t], path) == read(files[0], path)
            ||| holds_one(writers[t], files[t], path)
        }),
        ({
            let path = cdi::path_of_spec(cdi_dir, resource_name);
            any_ended_well(writers[t], path) ==> holds_one(writers[t], files[t], path)
        }),
        writers[t].len() == calls.len(),
        forall|i: int|
            0 <= i < calls.len() ==> (#[trigger] writers[t][i]).path == calls[i].start().path
                && writers[t][i].contents == calls[i].contents,
        forall|i: int, j: int|
            0 <= i < j < calls.len() ==> (#[trigger] writers[t][i]).tmp_path != (
            #[trigger] writers[t][j]).tmp_path,
{
    let path = cdi::path_of_spec(cdi_dir, resource_name);
    let turns = done.map_values(
        |turn: (int, bool)| Turn::Write { writer: turn.0, succeeded: turn.1 },
    );
    assert forall|k: int| 0 <= k < turns.len() implies happens(
        #[trigger] turns[k],
        (writers[k], files[k]),
        (writers[k + 1], files[k + 1]),
    ) by {
        assert(takes_turn(done[k], (writers[k], files[k]), (writers[k + 1], files[k + 1])));
    }
    lemma_history_in_order(calls, cdi_dir, resource_name, writers, files, turns, t);
    assert(!removed_before(turns, t, path));
    assert forall|i: int, j: int| 0 <= i < j < calls.len() implies (
    #[trigger] writers[t][i]).tmp_path != (#[trigger] writers[t][j]).tmp_path by {
        if writers[t][i].tmp_path == writers[t][j].tmp_path {
            law_tmp_paths_distinct(
                writers[t][i].path,
                calls[i].pid,
                calls[i].seq,
                writers[t][j].path,
                calls[j].pid,
                calls[j].seq,
            );
        }
    }
}

/// Whether `calls`, in this order, took their numbers from `numbers`: at each moment, those of
/// every process by its number. Each call takes the next count of its own process.
pub open spec fn took_numbers(
    calls: Seq<WriteCall>,
    numbers: Seq<Map<u32, cdi::WriteNumbers>>,
) -> bool {
    &&& numbers.len() == calls.len() + 1
    &&& forall|i: int|
        0 <= i < calls.len() ==> {
            let pid = (#[trigger] calls[i]).pid;
            &&& numbers[i].contains_key(pid)
            &&& calls[i].seq == numbers[i][pid].next
            &&& numbers[i + 1] == numbers[i].insert(pid, numbers[i][pid].after(1))
        }
}

/// From call `i` on to call `j`, the count of a process grows by the calls that it made.
proof fn lemma_count_grows(
    calls: Seq<WriteCall>,
    numbers: Seq<Map<u32, cdi::WriteNumbers>>,
    i: int,
    j: int,
) -> (starts: nat)
    requires
        took_numbers(calls, numbers),
        0 <= i < j <= calls.len(),
    ensures
        1 <= starts <= j - i,
        numbers[j].contains_key(calls[i].pid),
        numbers[j][calls[i].pid] == numbers[i][calls[i].pid].after(starts),
    decreases j,
{
    let pid = calls[i].pid;
    if j == i + 1 {
        1
    } else {
        let starts = lemma_count_grows(calls, numbers, i, j - 1);
        if calls[j - 1].pid == pid {
            starts + 1
        } else {
            starts
        }
    }
}

/// Of the calls of any processes that run at the same time, no two have both their numbers in
/// common, as long as there are no more calls than there are counts.
pub proof fn law_numbers_distinct(
    calls: Seq<WriteCall>,
    numbers: Seq<Map<u32, cdi::WriteNumbers>>,
)
    requires
        took_numbers(calls, numbers),
        calls.len() <= 0x1_0000_0000_0000_0000,
    ensures
        ids_distinct(calls),
{
    assert forall|i: int, j: int|
        #![trigger calls[i], calls[j]]
        0 <= i < j < calls.len() implies (calls[i].pid, calls[i].seq) != (
        calls[j].pid,
        calls[j].seq,
    ) by {
        if calls[i].pid == calls[j].pid {
            let starts = lemma_count_grows(calls, numbers, i, j);
            assert(1 <= starts < 0x1_0000_0000_0000_0000);
        }
    }
}

/// Whether each of `calls` wrote the whole YAML of its `devices`.
pub open spec fn wrote_specs(
    calls: Seq<WriteCall>,
    devices: Seq<Seq<vfio::IommufdDev>>,
) -> bool {
    &&& devices.len() == calls.len()
    &&& forall|i: int|
        0 <= i < calls.len() ==> cdi::rendered((#[trigger] calls[i]).resource_name, devices[i])
            == Some(calls[i].contents)
}

/// Whether the spec at `path` is the complete YAML of the devices of one call that ended well.
pub open spec fn holds_one_spec(
    calls: Seq<WriteCall>,
    devices: Seq<Seq<vfio::IommufdDev>>,
    writers: Seq<WriterView>,
    files: Files,
    path: Seq<char>,
) -> bool {
    exists|i: int| #[trigger]
        ended_well(writers, i, path) && read(files, path) == cdi::rendered(
            calls[i].resource_name,
            devices[i],
        )
}

proof fn lemma_holds_one_spec(
    calls: Seq<WriteCall>,
    devices: Seq<Seq<vfio::IommufdDev>>,
    writers: Seq<WriterView>,
    files: Files,
    path: Seq<char>,
)
    requires
        wrote_specs(calls, devices),
        writers.len() == calls.len(),
        forall|i: int|
            0 <= i < calls.len() ==> (#[trigger] writers[i]).contents == calls[i].contents,
        holds_one(writers, files, path),
    ensures
        holds_one_spec(calls, devices, writers, files, path),
{
    let i = choose|i: int| #[trigger]
        ended_well(writers, i, path) && read(files, path) == Some(writers[i].contents);
    assert(writers[i].contents == calls[i].contents);
    assert(read(files, path) == cdi::rendered(calls[i].resource_name, devices[i]));
}

/// Of calls of `write_cdi_spec` that run at the same time, in any processes, each of which had a
/// spec to write: at every moment a reader of a spec finds it as it was in the beginning, or the
/// complete YAML of the devices of one call that ended well; and when all calls for that spec
/// have ended well, and there are any, the complete YAML of one of them. No two calls use one
/// path on the way.
pub proof fn law_concurrent_specs(
    calls: Seq<WriteCall>,
    numbers: Seq<Map<u32, cdi::WriteNumbers>>,
    devices: Seq<Seq<vfio::IommufdDev>>,
    cdi_dir: Seq<char>,
    resource_name: Seq<char>,
    writers: Seq<Seq<WriterView>>,
    files: Seq<Files>,
    done: Seq<(int, bool)>,
    t: int,
)
    requires
        took_numbers(calls, numbers),
        calls.len() <= 0x1_0000_0000_0000_0000,
        wrote_specs(calls, devices),
        interleaved(calls, writers, files, done),
        0 <= t < files.len(),
    ensures
        ({
            let path = cdi::path_of_spec(cdi_dir, resource_name);
            ||| read(files[t], path) == read(files[0], path)
            ||| holds_one_spec(calls, devices, writers[t], files[t], path)
        }),
        ({
            let path = cdi::path_of_spec(cdi_dir, resource_name);
            &&& exists|i: int| 0 <= i < calls.len() && (#[trigger] calls[i]).start().path == path
            &&& forall|i: int|
                0 <= i < calls.len() && calls[i].start().path == path ==> #[trigger] ended_well(
                    writers[t],
                    i,
                    path,
                )
        }) ==> holds_one_spec(
            calls,
            devices,
            writers[t],
            files[t],
            cdi::path_of_spec(cdi_dir, resource_name),
        ),
        forall|i: int, j: int|
            #![trigger calls[i], calls[j]]
            0 <= i < j < calls.len() ==> calls[i].start().tmp_path != calls[j].start().tmp_path,
{
    let path = cdi::path_of_spec(cdi_dir, resource_name);
    law_numbers_distinct(calls, numbers);
    law_concurrent_writes(calls, cdi_dir, resource_name, writers, files, done, t);
    law_concurrent_writes(calls, cdi_dir, resource_name, writers, files, done, 0);
    if holds_one(writers[t], files[t], path) {
        lemma_holds_one_spec(calls, devices, writers[t], files[t], path);
    }
    if exists|i: int| 0 <= i < calls.len() && (#[trigger] calls[i]).start().path == path {
        let i = choose|i: int| 0 <= i < calls.len() && (#[trigger] calls[i]).start().path == path;
        if ended_well(writers[t], i, path) {
            assert(any_ended_well(writers[t], path));
        }
    }
    assert forall|i: int, j: int|
        #![trigger calls[i], calls[j]]
        0 <= i < j < calls.len() implies calls[i].start().tmp_path
        != calls[j].start().tmp_path by {
        assert(writers[0][i] == calls[i].start());
        assert(writers[0][j] == calls[j].start());
    }
}

/// Of calls of `write_cdi_spec` that run at the same time, in any processes, while specs are
/// removed too: at every moment a reader of a spec finds it as it was in the beginning, or no
/// spec at all, or the complete YAML of the devices of one call that ended well.
pub proof fn law_specs_and_removals(
    calls: Seq<WriteCall>,
    numbers: Seq<Map<u32, cdi::WriteNumbers>>,
    devices: Seq<Seq<vfio::IommufdDev>>,
    cdi_dir: Seq<char>,
    resource_name: Seq<char>,
    writers: Seq<Seq<WriterView>>,
    files: Seq<Files>,
    turns: Seq<Turn>,
    t: int,
)
    requires
        took_numbers(calls, numbers),
        calls.len() <= 0x1_0000_0000_0000_0000,
        wrote_specs(calls, devices),
        interleaved_with_removals(calls, writers, files, turns),
        0 <= t < files.len(),
    ensures
        ({
            let path = cdi::path_of_spec(cdi_dir, resource_name);
            ||| read(files[t], path) == read(files[0], path)
            ||| read(files[t], path) is None
            ||| holds_one_spec(calls, devices, writers[t], files[t], path)
        }),
{
    let path = cdi::path_of_spec(cdi_dir, resource_name);
    law_numbers_distinct(calls, numbers);
    law_writes_and_removals(calls, cdi_dir, resource_name, writers, files, turns, t);
    if holds_one(writers[t], files[t], path) {
        lemma_holds_one_spec(calls, devices, writers[t], files[t], path);
    }
}

/// The path that a write puts its bytes at is not the spec of any resource.
pub proof fn law_tmp_path_is_no_spec(
    path: Seq<char>,
    pid: u32,
    seq: u64,
    cdi_dir: Seq<char>,
    resource_name: Seq<char>,
)
    ensures
        cdi::path_of_tmp(path, pid, seq) != cdi::path_of_spec(cdi_dir, resource_name),
{
    reveal_strlit(".tmp");
    reveal_strlit(".yaml");
    assert(cdi::path_of_tmp(path, pid, seq).last() == 'p');
    assert(cdi::path_of_spec(cdi_dir, resource_name).last() == 'l');
}

/// Two writes put their bytes at one path only if they are for one spec and have one process
/// number and one count.
pub proof fn law_tmp_paths_distinct(
    path1: Seq<char>,
    pid1: u32,
    seq1: u64,
    path2: Seq<char>,
    pid2: u32,
    seq2: u64,
)
    requires
        cdi::path_of_tmp(path1, pid1, seq1) == cdi::path_of_tmp(path2, pid2, seq2),
    ensures
        path1 == path2,
        pid1 == pid2,
        seq1 == seq2,
{
    let (p1, p2) = (text::decimal(pid1 as nat), text::decimal(pid2 as nat));
    let (s1, s2) = (text::decimal(seq1 as nat), text::decimal(seq2 as nat));
    let head1 = path1.push('.') + p1;
    let head2 = path2.push('.') + p2;
    let stem1 = head1.push('.') + s1;
    let stem2 = head2.push('.') + s2;
    let tmp1 = cdi::path_of_tmp(path1, pid1, seq1);
    let tmp2 = cdi::path_of_tmp(path2, pid2, seq2);
    reveal_strlit(".");
    reveal_strlit(".tmp");
    assert(tmp1 =~= stem1 + ".tmp"@);
    assert(tmp2 =~= stem2 + ".tmp"@);
    assert(stem1 =~= tmp1.take(tmp1.len() - 4));
    assert(stem2 =~= tmp2.take(tmp2.len() - 4));
    text::law_decimal_is_digits(pid1 as nat);
    text::law_decimal_is_digits(pid2 as nat);
    text::law_decimal_is_digits(seq1 as nat);
    text::law_decimal_is_digits(seq2 as nat);
    text::lemma_split_unique(head1, s1, head2, s2, '.');
    text::lemma_split_unique(path1, p1, path2, p2, '.');
    text::law_decimal_injective(pid1 as nat, pid2 as nat);
    text::law_decimal_injective(seq1 as nat, seq2 as nat);
}

/// Two resources share a spec file only if their names differ in nothing but `/` and `-`.
pub proof fn law_spec_paths_distinct(cdi_dir: Seq<char>, name1: Seq<char>, name2: Seq<char>)
    requires
        cdi::path_of_spec(cdi_dir, name1) == cdi::path_of_spec(cdi_dir, name2),
    ensures
        text::dashed(name1) == text::dashed(name2),
{
    reveal_strlit("kata.");
    reveal_strlit(".yaml");
    let (file1, file2) = (cdi::spec_file_name(name1), cdi::spec_file_name(name2));
    text::lemma_joined_unique(cdi_dir, file1, file2);
    assert(text::dashed(name1) =~= file1.subrange(5, file1.len() - 5));
    assert(text::dashed(name2) =~= file2.subrange(5, file2.len() - 5));
}

/// Every resource of the table has a spec file of its own in a registry.
pub proof fn law_one_spec_per_resource(cdi_dir: Seq<char>, i: int, j: int)
    requires
        0 <= i < vfio::table().len(),
        0 <= j < vfio::table().len(),
        cdi::path_of_spec(cdi_dir, vfio::table()[i].name@)
            == cdi::path_of_spec(cdi_dir, vfio::table()[j].name@),
    ensures
        i == j,
{
    let (name1, name2) = (vfio::table()[i].name@, vfio::table()[j].name@);
    law_spec_paths_distinct(cdi_dir, name1, name2);
    reveal_strlit("nvidia.com/gpu");
    reveal_strlit("nvidia.com/nvswitch");
    assert(text::dashed(name1).len() == name1.len());
    assert(text::dashed(name2).len() == name2.len());
}

} // verus!

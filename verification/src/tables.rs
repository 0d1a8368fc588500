//! The table rules: a new row replaces the row of the same name, or is added
//! at the end; removing a task rewrites the table; a table is sealed row by
//! row, leaving out rows the cipher refused.
use vstd::prelude::*;
use crate::structs::{Task, TaskEncrypted, LogEntry, LogEntryEncrypted};
use crate::structs::same_log;
use crate::secure::{
    callable, task_sealed, task_seal_refused, task_opened, task_unopenable, log_sealed,
    log_seal_refused, log_opened, log_unopenable, cipher_pair, storable_task, fully_sealed,
    read_back_as, lemma_task_roundtrip, lemma_log_roundtrip,
};

verus! {

/// Both tasks are named, by the same name.
pub open spec fn task_names_match(t: Task, new_row: Task) -> bool {
    &&& t.name is Some
    &&& new_row.name is Some
    &&& t.name->0@ == new_row.name->0@
}

/// Row `i` is the first row named as `new_row`.
pub open spec fn is_first_task_match(s: Seq<Task>, new_row: Task, i: int) -> bool {
    &&& 0 <= i < s.len()
    &&& task_names_match(s[i], new_row)
    &&& forall|j: int| 0 <= j < i ==> !task_names_match(#[trigger] s[j], new_row)
}

/// The table after adding `new_row`: it replaces the first row of its name,
/// or is added at the end.
pub open spec fn upsert_task(s: Seq<Task>, new_row: Task) -> Seq<Task> {
    if exists|i: int| is_first_task_match(s, new_row, i) {
        s.update(choose|i: int| is_first_task_match(s, new_row, i), new_row)
    } else {
        s.push(new_row)
    }
}

/// Each row compared while looking for `new_row`'s name has a name, and so
/// has `new_row` (the comparison reads both names).
pub open spec fn upsert_task_defined(s: Seq<Task>, new_row: Task) -> bool {
    forall|i: int|
        0 <= i < s.len() && (forall|j: int| 0 <= j < i ==> !task_names_match(#[trigger] s[j], new_row))
            ==> (#[trigger] s[i].name is Some && new_row.name is Some)
}

/// Row `i` is the first log entry named as `new_row`.
pub open spec fn is_first_log_match(s: Seq<LogEntry>, new_row: LogEntry, i: int) -> bool {
    &&& 0 <= i < s.len()
    &&& s[i].name@ == new_row.name@
    &&& forall|j: int| 0 <= j < i ==> (#[trigger] s[j]).name@ != new_row.name@
}

/// The log table after adding `new_row`: it replaces the first entry of its
/// name, or is added at the end.
pub open spec fn upsert_log(s: Seq<LogEntry>, new_row: LogEntry) -> Seq<LogEntry> {
    if exists|i: int| is_first_log_match(s, new_row, i) {
        s.update(choose|i: int| is_first_log_match(s, new_row, i), new_row)
    } else {
        s.push(new_row)
    }
}

/// The table rebuilt by adding its rows one by one to an empty table.
pub open spec fn rebuild(s: Seq<Task>) -> Seq<Task>
    decreases s.len(),
{
    if s.len() == 0 {
        Seq::empty()
    } else {
        upsert_task(rebuild(s.drop_last()), s.last())
    }
}

/// Every step of `rebuild` is defined.
pub open spec fn rebuild_defined(s: Seq<Task>) -> bool {
    forall|k: int| 0 <= k < s.len() ==> upsert_task_defined(rebuild(s.take(k)), #[trigger] s[k])
}

/// Row `i` is the first task named `name`.
pub open spec fn is_first_named(s: Seq<Task>, name: Seq<char>, i: int) -> bool {
    &&& 0 <= i < s.len()
    &&& s[i].name matches Some(n) && n@ == name
    &&& forall|j: int| 0 <= j < i ==> !((#[trigger] s[j]).name matches Some(n) && n@ == name)
}

/// The table without its first task named `name`.
pub open spec fn remove_first_named(s: Seq<Task>, name: Seq<char>) -> Seq<Task> {
    if exists|i: int| is_first_named(s, name, i) {
        s.remove(choose|i: int| is_first_named(s, name, i))
    } else {
        s
    }
}

/// A task that can be sealed: name, shell and command set.
pub open spec fn sealable(t: Task) -> bool {
    t.name is Some && t.shell is Some && t.command is Some
}

/// `rows` is what sealing `tasks` in order gives: each task is sealed, or left
/// out because `seal` refused one of its fields.
pub open spec fn table_sealed<F: Fn(Vec<u8>) -> Option<Vec<u8>>>(
    seal: F,
    tasks: Seq<Task>,
    rows: Seq<TaskEncrypted>,
) -> bool
    decreases tasks.len(),
{
    if tasks.len() == 0 {
        rows.len() == 0
    } else {
        ||| (rows.len() > 0 && task_sealed(seal, tasks.last(), rows.last()) && table_sealed(
            seal,
            tasks.drop_last(),
            rows.drop_last(),
        ))
        ||| (task_seal_refused(seal, tasks.last()) && table_sealed(seal, tasks.drop_last(), rows))
    }
}

/// `rows` is what sealing the log entries `logs` in order gives.
pub open spec fn log_table_sealed<F: Fn(Vec<u8>) -> Option<Vec<u8>>>(
    seal: F,
    logs: Seq<LogEntry>,
    rows: Seq<LogEntryEncrypted>,
) -> bool
    decreases logs.len(),
{
    if logs.len() == 0 {
        rows.len() == 0
    } else {
        ||| (rows.len() > 0 && log_sealed(seal, logs.last(), rows.last()) && log_table_sealed(
            seal,
            logs.drop_last(),
            rows.drop_last(),
        ))
        ||| (log_seal_refused(seal, logs.last()) && log_table_sealed(seal, logs.drop_last(), rows))
    }
}

/// No two named rows share a name.
pub open spec fn unique_names(s: Seq<Task>) -> bool {
    forall|i: int, j: int| 0 <= i < j < s.len() ==> !task_names_match(#[trigger] s[i], #[trigger] s[j])
}

/// Every row is named.
pub open spec fn all_named(s: Seq<Task>) -> bool {
    forall|i: int| 0 <= i < s.len() ==> (#[trigger] s[i]).name is Some
}

proof fn lemma_first_task_match_unique(s: Seq<Task>, new_row: Task, i: int, k: int)
    requires
        is_first_task_match(s, new_row, i),
        is_first_task_match(s, new_row, k),
    ensures
        i == k,
{
    if i < k {
        assert(!task_names_match(s[i], new_row));
    } else if k < i {
        assert(!task_names_match(s[k], new_row));
    }
}

proof fn lemma_first_log_match_unique(s: Seq<LogEntry>, new_row: LogEntry, i: int, k: int)
    requires
        is_first_log_match(s, new_row, i),
        is_first_log_match(s, new_row, k),
    ensures
        i == k,
{
    if i < k {
        assert(s[i].name@ != new_row.name@);
    } else if k < i {
        assert(s[k].name@ != new_row.name@);
    }
}

proof fn lemma_first_named_unique(s: Seq<Task>, name: Seq<char>, i: int, k: int)
    requires
        is_first_named(s, name, i),
        is_first_named(s, name, k),
    ensures
        i == k,
{
    if i < k {
        assert(!(s[i].name matches Some(n) && n@ == name));
    } else if k < i {
        assert(!(s[k].name matches Some(n) && n@ == name));
    }
}

/// The table with `new_row` added: it replaces the first row of its name, or
/// is added at the end.
pub fn upsert_task_row(rows: Vec<Task>, new_row: Task) -> (r: Vec<Task>)
    requires
        upsert_task_defined(rows@, new_row),
    ensures
        r@ == upsert_task(rows@, new_row),
{
    let mut table = rows;
    let mut i: usize = 0;
    let mut found = false;
    while i < table.len() && !found
        invariant
            i <= table@.len(),
            table@ == rows@,
            upsert_task_defined(table@, new_row),
            found ==> i < table@.len() && task_names_match(table@[i as int], new_row),
            forall|j: int| 0 <= j < i ==> !task_names_match(#[trigger] table@[j], new_row),
        decreases table@.len() - i, if found { 0int } else { 1int },
    {
        assert(table@[i as int].name is Some && new_row.name is Some);
        if *new_row.name.as_ref().unwrap() == *table[i].name.as_ref().unwrap() {
            found = true;
        } else {
            i = i + 1;
        }
    }
    if found {
        proof {
            assert(is_first_task_match(rows@, new_row, i as int));
            let k = choose|k: int| is_first_task_match(rows@, new_row, k);
            lemma_first_task_match_unique(rows@, new_row, i as int, k);
        }
        table.set(i, new_row);
    } else {
        proof {
            assert(!exists|k: int| is_first_task_match(rows@, new_row, k));
        }
        table.push(new_row);
    }
    table
}

/// The log table with `new_row` added: it replaces the first entry of its
/// name, or is added at the end.
pub fn upsert_log_row(rows: Vec<LogEntry>, new_row: LogEntry) -> (r: Vec<LogEntry>)
    ensures
        r@ == upsert_log(rows@, new_row),
{
    let mut table = rows;
    let mut i: usize = 0;
    let mut found = false;
    while i < table.len() && !found
        invariant
            i <= table@.len(),
            table@ == rows@,
            found ==> i < table@.len() && table@[i as int].name@ == new_row.name@,
            forall|j: int| 0 <= j < i ==> (#[trigger] table@[j]).name@ != new_row.name@,
        decreases table@.len() - i, if found { 0int } else { 1int },
    {
        if table[i].name == new_row.name {
            found = true;
        } else {
            i = i + 1;
        }
    }
    if found {
        proof {
            assert(is_first_log_match(rows@, new_row, i as int));
            let k = choose|k: int| is_first_log_match(rows@, new_row, k);
            lemma_first_log_match_unique(rows@, new_row, i as int, k);
        }
        table.set(i, new_row);
    } else {
        proof {
            assert(!exists|k: int| is_first_log_match(rows@, new_row, k));
        }
        table.push(new_row);
    }
    table
}

/// The table without its first task named `name`.
pub fn remove_first_named_row(rows: Vec<Task>, name: &String) -> (r: Vec<Task>)
    ensures
        r@ == remove_first_named(rows@, name@),
{
    let mut table = rows;
    let mut i: usize = 0;
    let mut found = false;
    while i < table.len() && !found
        invariant
            i <= table@.len(),
            table@ == rows@,
            found ==> i < table@.len() && (table@[i as int].name matches Some(n) && n@ == name@),
            forall|j: int|
                0 <= j < i ==> !((#[trigger] table@[j]).name matches Some(n) && n@ == name@),
        decreases table@.len() - i, if found { 0int } else { 1int },
    {
        let hit = match &table[i].name {
            Some(n) => *n == *name,
            None => false,
        };
        if hit {
            found = true;
        } else {
            i = i + 1;
        }
    }
    if found {
        proof {
            assert(is_first_named(rows@, name@, i as int));
            let k = choose|k: int| is_first_named(rows@, name@, k);
            lemma_first_named_unique(rows@, name@, i as int, k);
        }
        table.remove(i);
    } else {
        proof {
            assert(!exists|k: int| is_first_named(rows@, name@, k));
        }
    }
    table
}

/// The table rebuilt by adding its rows one by one to an empty table.
pub fn rebuild_table(rows: Vec<Task>) -> (r: Vec<Task>)
    requires
        rebuild_defined(rows@),
    ensures
        r@ == rebuild(rows@),
{
    let mut out: Vec<Task> = Vec::new();
    let mut i: usize = 0;
    while i < rows.len()
        invariant
            i <= rows@.len(),
            rebuild_defined(rows@),
            out@ == rebuild(rows@.take(i as int)),
        decreases rows@.len() - i,
    {
        proof {
            assert(rows@.take(i + 1).drop_last() =~= rows@.take(i as int));
            assert(rows@.take(i + 1).last() == rows@[i as int]);
            assert(upsert_task_defined(rebuild(rows@.take(i as int)), rows@[i as int]));
        }
        out = upsert_task_row(out, rows[i].clone());
        i = i + 1;
    }
    proof {
        assert(rows@.take(rows@.len() as int) =~= rows@);
    }
    out
}

/// Seals each task in order, leaving out the tasks `seal` refused.
pub fn encrypt_table<F: Fn(Vec<u8>) -> Option<Vec<u8>>>(tasks: &Vec<Task>, seal: &F) -> (r: Vec<
    TaskEncrypted,
>)
    requires
        callable(*seal),
        forall|i: int| 0 <= i < tasks@.len() ==> sealable(#[trigger] tasks@[i]),
    ensures
        table_sealed(*seal, tasks@, r@),
{
    let mut out: Vec<TaskEncrypted> = Vec::new();
    let mut i: usize = 0;
    while i < tasks.len()
        invariant
            i <= tasks@.len(),
            callable(*seal),
            forall|k: int| 0 <= k < tasks@.len() ==> sealable(#[trigger] tasks@[k]),
            table_sealed(*seal, tasks@.take(i as int), out@),
        decreases tasks@.len() - i,
    {
        proof {
            assert(tasks@.take(i + 1).drop_last() =~= tasks@.take(i as int));
            assert(tasks@.take(i + 1).last() == tasks@[i as int]);
            assert(sealable(tasks@[i as int]));
        }
        let ghost before = out@;
        match Task::encrypt_with(&tasks[i], seal) {
            Some(e) => {
                out.push(e);
                proof {
                    assert(out@.drop_last() =~= before);
                }
            },
            None => {},
        }
        i = i + 1;
    }
    proof {
        assert(tasks@.take(tasks@.len() as int) =~= tasks@);
    }
    out
}

/// Seals each log entry in order, leaving out the entries `seal` refused.
pub fn encrypt_log_table<F: Fn(Vec<u8>) -> Option<Vec<u8>>>(logs: &Vec<LogEntry>, seal: &F) -> (r: Vec<
    LogEntryEncrypted,
>)
    requires
        callable(*seal),
    ensures
        log_table_sealed(*seal, logs@, r@),
{
    let mut out: Vec<LogEntryEncrypted> = Vec::new();
    let mut i: usize = 0;
    while i < logs.len()
        invariant
            i <= logs@.len(),
            callable(*seal),
            log_table_sealed(*seal, logs@.take(i as int), out@),
        decreases logs@.len() - i,
    {
        proof {
            assert(logs@.take(i + 1).drop_last() =~= logs@.take(i as int));
            assert(logs@.take(i + 1).last() == logs@[i as int]);
        }
        let ghost before = out@;
        match logs[i].encrypt_with(seal) {
            Some(e) => {
                out.push(e);
                proof {
                    assert(out@.drop_last() =~= before);
                }
            },
            None => {},
        }
        i = i + 1;
    }
    proof {
        assert(logs@.take(logs@.len() as int) =~= logs@);
    }
    out
}

impl TaskEncrypted {
    /// The rows to store after adding `new_row` to the stored table `current`:
    /// the table with `new_row` replacing the row of its name (or added at the
    /// end), sealed row by row. With no cell (`seal` is `None`) no row is sealed.
    pub fn add_task<F: Fn(Vec<u8>) -> Option<Vec<u8>>>(current: Vec<Task>, new_row: Task, seal: Option<&F>) -> (r: Vec<
        TaskEncrypted,
    >)
        requires
            seal matches Some(f) ==> callable(*f),
            upsert_task_defined(current@, new_row),
            forall|i: int|
                0 <= i < upsert_task(current@, new_row).len() ==> sealable(
                    #[trigger] upsert_task(current@, new_row)[i],
                ),
        ensures
            seal matches Some(f) ==> table_sealed(*f, upsert_task(current@, new_row), r@),
            seal is None ==> r@.len() == 0,
    {
        let table = upsert_task_row(current, new_row);
        match seal {
            Some(f) => encrypt_table(&table, f),
            None => Vec::new(),
        }
    }

    /// The tasks of the stored rows, opened in order; an empty table when no
    /// cell could be made (`open` is `None`) or a row cannot be opened.
    pub fn read_db<F: Fn(Vec<u8>) -> Option<Vec<u8>>>(rows: Vec<TaskEncrypted>, open: Option<&F>) -> (r: Vec<Task>)
        requires
            open matches Some(f) ==> callable(*f),
        ensures
            open is None ==> r@.len() == 0,
            open matches Some(f) ==> ((r@.len() == rows@.len() && forall|i: int|
                0 <= i < r@.len() ==> task_opened(*f, rows@[i], #[trigger] r@[i])) || (r@.len()
                == 0 && exists|i: int| 0 <= i < rows@.len() && task_unopenable(*f, #[trigger] rows@[i]))),
    {
        match Task::decrypt_fields(rows, open) {
            Some(tasks) => tasks,
            None => Vec::new(),
        }
    }

    /// The rows to store after removing the task named `task_name` from the
    /// stored table `current`: the first such task is dropped and the rest is
    /// added back, one by one, to an empty table, then sealed row by row. With
    /// no cell (`seal` is `None`) no row is sealed.
    pub fn rm_task<F: Fn(Vec<u8>) -> Option<Vec<u8>>>(current: Vec<Task>, task_name: &String, seal: Option<&F>) -> (r: Vec<
        TaskEncrypted,
    >)
        requires
            seal matches Some(f) ==> callable(*f),
            rebuild_defined(remove_first_named(current@, task_name@)),
            forall|i: int|
                0 <= i < rebuild(remove_first_named(current@, task_name@)).len() ==> sealable(
                    #[trigger] rebuild(remove_first_named(current@, task_name@))[i],
                ),
        ensures
            seal matches Some(f) ==> table_sealed(*f, rebuild(remove_first_named(current@, task_name@)), r@),
            seal is None ==> r@.len() == 0,
    {
        let remaining = remove_first_named_row(current, task_name);
        let table = rebuild_table(remaining);
        match seal {
            Some(f) => encrypt_table(&table, f),
            None => Vec::new(),
        }
    }
}

impl LogEntryEncrypted {
    /// The rows to store after adding `new_row` to the stored log table (none
    /// when it could not be read): the table with `new_row` replacing the
    /// entry of its name (or added at the end), sealed row by row. With no
    /// cell (`seal` is `None`) no row is sealed.
    pub fn add_log<F: Fn(Vec<u8>) -> Option<Vec<u8>>>(
        current: Option<Vec<LogEntry>>,
        new_row: LogEntry,
        seal: Option<&F>,
    ) -> (r: Vec<LogEntryEncrypted>)
        requires
            seal matches Some(f) ==> callable(*f),
        ensures
            seal matches Some(f) ==> log_table_sealed(
                *f,
                upsert_log(
                    match current {
                        Some(l) => l@,
                        None => Seq::empty(),
                    },
                    new_row,
                ),
                r@,
            ),
            seal is None ==> r@.len() == 0,
    {
        let logs = match current {
            Some(l) => l,
            None => Vec::new(),
        };
        let table = upsert_log_row(logs, new_row);
        match seal {
            Some(f) => encrypt_log_table(&table, f),
            None => Vec::new(),
        }
    }

    /// The log entries of the stored rows, opened in order; `None` when no
    /// cell could be made (`open` is `None`), even for an empty table, or when
    /// a row cannot be opened.
    pub fn read_logs<F: Fn(Vec<u8>) -> Option<Vec<u8>>>(rows: Vec<LogEntryEncrypted>, open: Option<&F>) -> (r: Option<
        Vec<LogEntry>,
    >)
        requires
            open matches Some(f) ==> callable(*f),
        ensures
            open is None ==> r is None,
            open matches Some(f) ==> (r matches Some(ls) ==> ls@.len() == rows@.len() && forall|i: int|
                0 <= i < ls@.len() ==> log_opened(*f, rows@[i], #[trigger] ls@[i])),
            open matches Some(f) ==> (r is None ==> exists|i: int|
                0 <= i < rows@.len() && log_unopenable(*f, #[trigger] rows@[i])),
    {
        LogEntry::decrypt_fields(rows, open)
    }
}


/// Law: after adding `new_row`, the table holds `new_row`, and is one row
/// longer exactly when no row had its name.
pub proof fn lemma_upsert_task_holds_row(s: Seq<Task>, new_row: Task)
    ensures
        exists|i: int| 0 <= i < upsert_task(s, new_row).len() && upsert_task(s, new_row)[i] == new_row,
        upsert_task(s, new_row).len() == if exists|i: int| is_first_task_match(s, new_row, i) {
            s.len()
        } else {
            s.len() + 1
        },
{
    if exists|i: int| is_first_task_match(s, new_row, i) {
        let i = choose|i: int| is_first_task_match(s, new_row, i);
        assert(upsert_task(s, new_row)[i] == new_row);
    } else {
        assert(upsert_task(s, new_row)[s.len() as int] == new_row);
    }
}

/// Law: adding a named row keeps the names of a table distinct.
pub proof fn lemma_upsert_task_keeps_names_unique(s: Seq<Task>, new_row: Task)
    requires
        unique_names(s),
        new_row.name is Some,
    ensures
        unique_names(upsert_task(s, new_row)),
{
    let u = upsert_task(s, new_row);
    if exists|i: int| is_first_task_match(s, new_row, i) {
        let p = choose|i: int| is_first_task_match(s, new_row, i);
        assert forall|i: int, j: int| 0 <= i < j < u.len() implies !task_names_match(
            #[trigger] u[i],
            #[trigger] u[j],
        ) by {
            if i == p {
                assert(!task_names_match(s[p], s[j]));
            } else if j == p {
                assert(!task_names_match(s[i], s[p]));
            } else {
                assert(!task_names_match(s[i], s[j]));
            }
        }
    } else {
        assert forall|i: int, j: int| 0 <= i < j < u.len() implies !task_names_match(
            #[trigger] u[i],
            #[trigger] u[j],
        ) by {
            if j == s.len() {
                if task_names_match(s[i], new_row) {
                    let k = choose|k: int|
                        0 <= k <= i && task_names_match(s[k], new_row) && forall|m: int|
                            0 <= m < k ==> !task_names_match(#[trigger] s[m], new_row);
                    assert(is_first_task_match(s, new_row, k));
                }
            } else {
                assert(!task_names_match(s[i], s[j]));
            }
        }
    }
}

/// Some row among the first `n` is named as `new_row`, so there is a first one.
proof fn lemma_first_task_match_exists(s: Seq<Task>, new_row: Task, n: int)
    requires
        0 <= n <= s.len(),
        exists|i: int| 0 <= i < n && task_names_match(#[trigger] s[i], new_row),
    ensures
        exists|i: int| is_first_task_match(s, new_row, i),
    decreases n,
{
    if exists|i: int| 0 <= i < n - 1 && task_names_match(#[trigger] s[i], new_row) {
        lemma_first_task_match_exists(s, new_row, n - 1);
    } else {
        assert(is_first_task_match(s, new_row, n - 1));
    }
}

/// Law: adding the same named row twice is adding it once.
pub proof fn lemma_upsert_task_idempotent(s: Seq<Task>, new_row: Task)
    requires
        new_row.name is Some,
    ensures
        upsert_task(upsert_task(s, new_row), new_row) == upsert_task(s, new_row),
{
    let u = upsert_task(s, new_row);
    let p = if exists|i: int| is_first_task_match(s, new_row, i) {
        choose|i: int| is_first_task_match(s, new_row, i)
    } else {
        s.len() as int
    };
    if !exists|i: int| is_first_task_match(s, new_row, i) {
        assert forall|j: int| 0 <= j < s.len() implies !task_names_match(#[trigger] s[j], new_row) by {
            if task_names_match(s[j], new_row) {
                lemma_first_task_match_exists(s, new_row, j + 1);
            }
        }
    }
    assert(is_first_task_match(u, new_row, p));
    let k = choose|k: int| is_first_task_match(u, new_row, k);
    lemma_first_task_match_unique(u, new_row, p, k);
    assert(u.update(p, new_row) =~= u);
}

/// Law: rebuilding a table whose rows are all named, by distinct names, gives
/// the table back.
pub proof fn lemma_rebuild_unique(s: Seq<Task>)
    requires
        unique_names(s),
        all_named(s),
    ensures
        rebuild(s) == s,
    decreases s.len(),
{
    if s.len() > 0 {
        let d = s.drop_last();
        assert(unique_names(d)) by {
            assert forall|i: int, j: int| 0 <= i < j < d.len() implies !task_names_match(
                #[trigger] d[i],
                #[trigger] d[j],
            ) by {
                assert(!task_names_match(s[i], s[j]));
            }
        }
        assert(all_named(d)) by {
            assert forall|i: int| 0 <= i < d.len() implies (#[trigger] d[i]).name is Some by {
                assert(s[i].name is Some);
            }
        }
        lemma_rebuild_unique(d);
        assert forall|i: int| !is_first_task_match(d, s.last(), i) by {
            if 0 <= i < d.len() {
                assert(!task_names_match(s[i], s[s.len() - 1]));
            }
        }
        assert(d.push(s.last()) =~= s);
    }
}

/// Law: removing a task from a table whose rows are all named, by distinct
/// names, drops exactly that row and leaves no row of that name.
pub proof fn lemma_rm_task_removes(s: Seq<Task>, name: Seq<char>)
    requires
        unique_names(s),
        all_named(s),
    ensures
        rebuild(remove_first_named(s, name)) == remove_first_named(s, name),
        forall|i: int|
            0 <= i < remove_first_named(s, name).len() ==> (#[trigger] remove_first_named(
                s,
                name,
            )[i]).name->0@ != name,
        remove_first_named(s, name).len() == if exists|i: int| is_first_named(s, name, i) {
            s.len() - 1
        } else {
            s.len() as int
        },
{
    let r = remove_first_named(s, name);
    if exists|i: int| is_first_named(s, name, i) {
        let p = choose|i: int| is_first_named(s, name, i);
        assert forall|i: int, j: int| 0 <= i < j < r.len() implies !task_names_match(
            #[trigger] r[i],
            #[trigger] r[j],
        ) by {
            let a = if i < p { i } else { i + 1 };
            let b = if j < p { j } else { j + 1 };
            assert(r[i] == s[a]);
            assert(r[j] == s[b]);
            assert(!task_names_match(s[a], s[b]));
        }
        assert forall|i: int| 0 <= i < r.len() implies (#[trigger] r[i]).name is Some by {
            let a = if i < p { i } else { i + 1 };
            assert(r[i] == s[a]);
        }
        assert forall|i: int| 0 <= i < r.len() implies (#[trigger] r[i]).name->0@ != name by {
            let a = if i < p { i } else { i + 1 };
            assert(r[i] == s[a]);
            assert(s[a].name is Some);
            if s[a].name->0@ == name {
                if a < p {
                    assert(!(s[a].name matches Some(n) && n@ == name));
                } else {
                    assert(task_names_match(s[p], s[a]));
                }
            }
        }
        lemma_rebuild_unique(r);
    } else {
        assert forall|i: int| 0 <= i < r.len() implies (#[trigger] r[i]).name->0@ != name by {
            if s[i].name->0@ == name {
                lemma_first_named_exists(s, name, i + 1);
            }
        }
        lemma_rebuild_unique(r);
    }
}

/// Some named task among the first `n` is named `name`, so there is a first one.
proof fn lemma_first_named_exists(s: Seq<Task>, name: Seq<char>, n: int)
    requires
        0 <= n <= s.len(),
        exists|i: int| 0 <= i < n && ((#[trigger] s[i]).name matches Some(m) && m@ == name),
    ensures
        exists|i: int| is_first_named(s, name, i),
    decreases n,
{
    if exists|i: int| 0 <= i < n - 1 && ((#[trigger] s[i]).name matches Some(m) && m@ == name) {
        lemma_first_named_exists(s, name, n - 1);
    } else {
        assert(is_first_named(s, name, n - 1));
    }
}

/// No two log entries share a name.
pub open spec fn unique_log_names(s: Seq<LogEntry>) -> bool {
    forall|i: int, j: int| 0 <= i < j < s.len() ==> (#[trigger] s[i]).name@ != (#[trigger] s[j]).name@
}

/// Some entry among the first `n` is named as `new_row`, so there is a first one.
proof fn lemma_first_log_match_exists(s: Seq<LogEntry>, new_row: LogEntry, n: int)
    requires
        0 <= n <= s.len(),
        exists|i: int| 0 <= i < n && (#[trigger] s[i]).name@ == new_row.name@,
    ensures
        exists|i: int| is_first_log_match(s, new_row, i),
    decreases n,
{
    if exists|i: int| 0 <= i < n - 1 && (#[trigger] s[i]).name@ == new_row.name@ {
        lemma_first_log_match_exists(s, new_row, n - 1);
    } else {
        assert(is_first_log_match(s, new_row, n - 1));
    }
}

/// Law: adding a log entry keeps the names of the log table distinct, and the
/// table then holds that entry.
pub proof fn lemma_upsert_log_keeps_names_unique(s: Seq<LogEntry>, new_row: LogEntry)
    requires
        unique_log_names(s),
    ensures
        unique_log_names(upsert_log(s, new_row)),
        exists|i: int| 0 <= i < upsert_log(s, new_row).len() && upsert_log(s, new_row)[i] == new_row,
{
    let u = upsert_log(s, new_row);
    if exists|i: int| is_first_log_match(s, new_row, i) {
        let p = choose|i: int| is_first_log_match(s, new_row, i);
        assert(u[p] == new_row);
        assert forall|i: int, j: int| 0 <= i < j < u.len() implies (#[trigger] u[i]).name@ != (
        #[trigger] u[j]).name@ by {
            assert(s[i].name@ != s[j].name@);
        }
    } else {
        assert(u[s.len() as int] == new_row);
        assert forall|i: int, j: int| 0 <= i < j < u.len() implies (#[trigger] u[i]).name@ != (
        #[trigger] u[j]).name@ by {
            if j == s.len() {
                if s[i].name@ == new_row.name@ {
                    lemma_first_log_match_exists(s, new_row, i + 1);
                }
            } else {
                assert(s[i].name@ != s[j].name@);
            }
        }
    }
}

/// Law: adding the same log entry twice is adding it once.
pub proof fn lemma_upsert_log_idempotent(s: Seq<LogEntry>, new_row: LogEntry)
    ensures
        upsert_log(upsert_log(s, new_row), new_row) == upsert_log(s, new_row),
{
    let u = upsert_log(s, new_row);
    let p = if exists|i: int| is_first_log_match(s, new_row, i) {
        choose|i: int| is_first_log_match(s, new_row, i)
    } else {
        s.len() as int
    };
    if !exists|i: int| is_first_log_match(s, new_row, i) {
        assert forall|j: int| 0 <= j < s.len() implies (#[trigger] s[j]).name@ != new_row.name@ by {
            if s[j].name@ == new_row.name@ {
                lemma_first_log_match_exists(s, new_row, j + 1);
            }
        }
    }
    assert(is_first_log_match(u, new_row, p));
    let k = choose|k: int| is_first_log_match(u, new_row, k);
    lemma_first_log_match_unique(u, new_row, p, k);
    assert(u.update(p, new_row) =~= u);
}


/// A sealed table has at most one row per task; with one row per task, row
/// `i` is task `i` sealed.
pub proof fn lemma_table_sealed_rows<F: Fn(Vec<u8>) -> Option<Vec<u8>>>(
    seal: F,
    tasks: Seq<Task>,
    rows: Seq<TaskEncrypted>,
)
    requires
        table_sealed(seal, tasks, rows),
    ensures
        rows.len() <= tasks.len(),
        rows.len() == tasks.len() ==> forall|i: int|
            0 <= i < rows.len() ==> task_sealed(seal, tasks[i], #[trigger] rows[i]),
    decreases tasks.len(),
{
    if tasks.len() > 0 {
        let d = tasks.drop_last();
        if rows.len() > 0 && task_sealed(seal, tasks.last(), rows.last()) && table_sealed(
            seal,
            d,
            rows.drop_last(),
        ) {
            lemma_table_sealed_rows(seal, d, rows.drop_last());
            if rows.len() == tasks.len() {
                assert forall|i: int| 0 <= i < rows.len() implies task_sealed(
                    seal,
                    tasks[i],
                    #[trigger] rows[i],
                ) by {
                    if i < rows.len() - 1 {
                        assert(rows.drop_last()[i] == rows[i]);
                        assert(d[i] == tasks[i]);
                    }
                }
            }
        } else {
            lemma_table_sealed_rows(seal, d, rows);
        }
    }
}

/// Law: the table read back is the table stored. When `open` turns back
/// whatever `seal` gives, and no row was left out nor any field refused, the
/// stored rows of a table of storable tasks all open, each to its task (an
/// unset comment reading back as "None").
pub proof fn lemma_table_roundtrip<S: Fn(Vec<u8>) -> Option<Vec<u8>>, O: Fn(Vec<u8>) -> Option<Vec<u8>>>(
    seal: S,
    open: O,
    tasks: Seq<Task>,
    rows: Seq<TaskEncrypted>,
    read: Seq<Task>,
)
    requires
        cipher_pair(seal, open),
        table_sealed(seal, tasks, rows),
        rows.len() == tasks.len(),
        forall|i: int| 0 <= i < tasks.len() ==> storable_task(#[trigger] tasks[i]),
        forall|i: int| 0 <= i < rows.len() ==> fully_sealed(tasks[i], #[trigger] rows[i]),
        read.len() == rows.len(),
        forall|i: int| 0 <= i < read.len() ==> task_opened(open, rows[i], #[trigger] read[i]),
    ensures
        forall|i: int| 0 <= i < rows.len() ==> !task_unopenable(open, #[trigger] rows[i]),
        forall|i: int| 0 <= i < read.len() ==> read_back_as(#[trigger] read[i], tasks[i]),
{
    lemma_table_sealed_rows(seal, tasks, rows);
    assert forall|i: int| 0 <= i < rows.len() implies !task_unopenable(open, #[trigger] rows[i]) by {
        lemma_task_roundtrip(seal, open, tasks[i], rows[i]);
    }
    assert forall|i: int| 0 <= i < read.len() implies read_back_as(#[trigger] read[i], tasks[i]) by {
        lemma_task_roundtrip(seal, open, tasks[i], rows[i]);
    }
}

/// A sealed log table has at most one row per entry; with one row per entry,
/// row `i` is entry `i` sealed.
pub proof fn lemma_log_table_sealed_rows<F: Fn(Vec<u8>) -> Option<Vec<u8>>>(
    seal: F,
    logs: Seq<LogEntry>,
    rows: Seq<LogEntryEncrypted>,
)
    requires
        log_table_sealed(seal, logs, rows),
    ensures
        rows.len() <= logs.len(),
        rows.len() == logs.len() ==> forall|i: int|
            0 <= i < rows.len() ==> log_sealed(seal, logs[i], #[trigger] rows[i]),
    decreases logs.len(),
{
    if logs.len() > 0 {
        let d = logs.drop_last();
        if rows.len() > 0 && log_sealed(seal, logs.last(), rows.last()) && log_table_sealed(
            seal,
            d,
            rows.drop_last(),
        ) {
            lemma_log_table_sealed_rows(seal, d, rows.drop_last());
            if rows.len() == logs.len() {
                assert forall|i: int| 0 <= i < rows.len() implies log_sealed(
                    seal,
                    logs[i],
                    #[trigger] rows[i],
                ) by {
                    if i < rows.len() - 1 {
                        assert(rows.drop_last()[i] == rows[i]);
                        assert(d[i] == logs[i]);
                    }
                }
            }
        } else {
            lemma_log_table_sealed_rows(seal, d, rows);
        }
    }
}

/// Law: the log table read back is the log table stored, when `open` turns
/// back whatever `seal` gives and nothing was refused.
pub proof fn lemma_log_table_roundtrip<S: Fn(Vec<u8>) -> Option<Vec<u8>>, O: Fn(Vec<u8>) -> Option<Vec<u8>>>(
    seal: S,
    open: O,
    logs: Seq<LogEntry>,
    rows: Seq<LogEntryEncrypted>,
    read: Seq<LogEntry>,
)
    requires
        cipher_pair(seal, open),
        log_table_sealed(seal, logs, rows),
        rows.len() == logs.len(),
        forall|i: int|
            0 <= i < rows.len() ==> (logs[i].output is Some <==> (#[trigger] rows[i]).output is Some),
        read.len() == rows.len(),
        forall|i: int| 0 <= i < read.len() ==> log_opened(open, rows[i], #[trigger] read[i]),
    ensures
        forall|i: int| 0 <= i < rows.len() ==> !log_unopenable(open, #[trigger] rows[i]),
        forall|i: int| 0 <= i < read.len() ==> same_log(#[trigger] read[i], logs[i]),
{
    lemma_log_table_sealed_rows(seal, logs, rows);
    assert forall|i: int| 0 <= i < rows.len() implies !log_unopenable(open, #[trigger] rows[i]) by {
        lemma_log_roundtrip(seal, open, logs[i], rows[i]);
    }
    assert forall|i: int| 0 <= i < read.len() implies same_log(#[trigger] read[i], logs[i]) by {
        lemma_log_roundtrip(seal, open, logs[i], rows[i]);
    }
}

/// The task is named `name`.
pub open spec fn task_named(t: Task, name: Seq<char>) -> bool {
    t.name matches Some(n) && n@ == name
}

/// Law: a read gives back the write. After `new_row` is added to a table whose
/// names are distinct and the table is stored and read back (`open` turning
/// back whatever `seal` gives, no row left out, no field refused), exactly one
/// task read back carries `new_row`'s name, and it is `new_row` (an unset
/// comment reading back as "None").
pub proof fn lemma_added_task_reads_back<S: Fn(Vec<u8>) -> Option<Vec<u8>>, O: Fn(Vec<u8>) -> Option<Vec<u8>>>(
    seal: S,
    open: O,
    current: Seq<Task>,
    new_row: Task,
    rows: Seq<TaskEncrypted>,
    read: Seq<Task>,
)
    requires
        cipher_pair(seal, open),
        unique_names(current),
        storable_task(new_row),
        forall|i: int|
            0 <= i < upsert_task(current, new_row).len() ==> storable_task(
                #[trigger] upsert_task(current, new_row)[i],
            ),
        table_sealed(seal, upsert_task(current, new_row), rows),
        rows.len() == upsert_task(current, new_row).len(),
        forall|i: int|
            0 <= i < rows.len() ==> fully_sealed(upsert_task(current, new_row)[i], #[trigger] rows[i]),
        read.len() == rows.len(),
        forall|i: int| 0 <= i < read.len() ==> task_opened(open, rows[i], #[trigger] read[i]),
    ensures
        exists|p: int|
            0 <= p < read.len() && read_back_as(#[trigger] read[p], new_row) && forall|j: int|
                0 <= j < read.len() && task_named(#[trigger] read[j], new_row.name->0@) ==> j == p,
{
    let u = upsert_task(current, new_row);
    lemma_upsert_task_holds_row(current, new_row);
    lemma_upsert_task_keeps_names_unique(current, new_row);
    lemma_table_roundtrip(seal, open, u, rows, read);
    let p = choose|p: int| 0 <= p < u.len() && u[p] == new_row;
    assert(read_back_as(read[p], u[p]));
    assert forall|j: int|
        0 <= j < read.len() && task_named(#[trigger] read[j], new_row.name->0@) implies j == p by {
        assert(read_back_as(read[j], u[j]));
        if j != p {
            assert(task_names_match(u[j], u[p]));
            if j < p {
                assert(!task_names_match(u[j], u[p]));
            } else {
                assert(!task_names_match(u[p], u[j]));
            }
        }
    }
}

/// Law: a read gives back the write, for the log table. After `new_row` is
/// added to a log table whose names are distinct and the table is stored and
/// read back (`open` turning back whatever `seal` gives, nothing refused),
/// exactly one entry read back carries `new_row`'s name, and it is `new_row`.
pub proof fn lemma_added_log_reads_back<S: Fn(Vec<u8>) -> Option<Vec<u8>>, O: Fn(Vec<u8>) -> Option<Vec<u8>>>(
    seal: S,
    open: O,
    current: Seq<LogEntry>,
    new_row: LogEntry,
    rows: Seq<LogEntryEncrypted>,
    read: Seq<LogEntry>,
)
    requires
        cipher_pair(seal, open),
        unique_log_names(current),
        log_table_sealed(seal, upsert_log(current, new_row), rows),
        rows.len() == upsert_log(current, new_row).len(),
        forall|i: int|
            0 <= i < rows.len() ==> (upsert_log(current, new_row)[i].output is Some <==> (
            #[trigger] rows[i]).output is Some),
        read.len() == rows.len(),
        forall|i: int| 0 <= i < read.len() ==> log_opened(open, rows[i], #[trigger] read[i]),
    ensures
        exists|p: int|
            0 <= p < read.len() && same_log(#[trigger] read[p], new_row) && forall|j: int|
                0 <= j < read.len() && (#[trigger] read[j]).name@ == new_row.name@ ==> j == p,
{
    let u = upsert_log(current, new_row);
    lemma_upsert_log_keeps_names_unique(current, new_row);
    lemma_log_table_roundtrip(seal, open, u, rows, read);
    let p = choose|p: int| 0 <= p < u.len() && u[p] == new_row;
    assert(same_log(read[p], u[p]));
    assert forall|j: int| 0 <= j < read.len() && (#[trigger] read[j]).name@ == new_row.name@ implies j == p by {
        assert(same_log(read[j], u[j]));
        if j < p {
            assert(u[j].name@ != u[p].name@);
        } else if p < j {
            assert(u[p].name@ != u[j].name@);
        }
    }
}

/// Law: adding a named row to a table whose names are distinct keeps them
/// distinct; afterwards exactly one row carries the new row's name and it is
/// the new row; every other row is the stored row at the same place, so no
/// stored row is moved or changed; the table grows by one row exactly when no
/// stored row had that name, and then the new row comes last.
pub proof fn lemma_upsert_task_exact(s: Seq<Task>, new_row: Task)
    requires
        unique_names(s),
        new_row.name is Some,
    ensures
        unique_names(upsert_task(s, new_row)),
        exists|p: int|
            0 <= p < upsert_task(s, new_row).len() && upsert_task(s, new_row)[p] == new_row && p <= s.len()
                && (p < s.len() ==> task_names_match(s[p], new_row)) && (p == s.len() <==> upsert_task(
                s,
                new_row,
            ).len() == s.len() + 1) && forall|j: int|
                0 <= j < upsert_task(s, new_row).len() && j != p ==> j < s.len() && #[trigger] upsert_task(
                    s,
                    new_row,
                )[j] == s[j] && !task_names_match(s[j], new_row),
{
    let u = upsert_task(s, new_row);
    lemma_upsert_task_keeps_names_unique(s, new_row);
    if exists|i: int| is_first_task_match(s, new_row, i) {
        let p = choose|i: int| is_first_task_match(s, new_row, i);
        assert(u[p] == new_row);
        assert forall|j: int| 0 <= j < u.len() && j != p implies j < s.len() && #[trigger] u[j] == s[j]
            && !task_names_match(s[j], new_row) by {
            if task_names_match(s[j], new_row) {
                if j < p {
                    assert(!task_names_match(s[j], s[p]));
                } else {
                    assert(!task_names_match(s[p], s[j]));
                }
            }
        }
    } else {
        let p = s.len() as int;
        assert(u[p] == new_row);
        assert forall|j: int| 0 <= j < u.len() && j != p implies j < s.len() && #[trigger] u[j] == s[j]
            && !task_names_match(s[j], new_row) by {
            if task_names_match(s[j], new_row) {
                lemma_first_task_match_exists(s, new_row, j + 1);
            }
        }
    }
}

/// Law: adding a log entry to a log table whose names are distinct keeps them
/// distinct; afterwards exactly one entry carries the new entry's name and it
/// is the new entry; every other entry is the stored entry at the same place;
/// the table grows by one entry exactly when no stored entry had that name,
/// and then the new entry comes last.
pub proof fn lemma_upsert_log_exact(s: Seq<LogEntry>, new_row: LogEntry)
    requires
        unique_log_names(s),
    ensures
        unique_log_names(upsert_log(s, new_row)),
        exists|p: int|
            0 <= p < upsert_log(s, new_row).len() && upsert_log(s, new_row)[p] == new_row && p <= s.len()
                && (p < s.len() ==> s[p].name@ == new_row.name@) && (p == s.len() <==> upsert_log(
                s,
                new_row,
            ).len() == s.len() + 1) && forall|j: int|
                0 <= j < upsert_log(s, new_row).len() && j != p ==> j < s.len() && #[trigger] upsert_log(
                    s,
                    new_row,
                )[j] == s[j] && s[j].name@ != new_row.name@,
{
    let u = upsert_log(s, new_row);
    lemma_upsert_log_keeps_names_unique(s, new_row);
    if exists|i: int| is_first_log_match(s, new_row, i) {
        let p = choose|i: int| is_first_log_match(s, new_row, i);
        assert(u[p] == new_row);
        assert forall|j: int| 0 <= j < u.len() && j != p implies j < s.len() && #[trigger] u[j] == s[j]
            && s[j].name@ != new_row.name@ by {
            if s[j].name@ == new_row.name@ {
                if j < p {
                    assert(s[j].name@ != s[p].name@);
                } else {
                    assert(s[p].name@ != s[j].name@);
                }
            }
        }
    } else {
        let p = s.len() as int;
        assert(u[p] == new_row);
        assert forall|j: int| 0 <= j < u.len() && j != p implies j < s.len() && #[trigger] u[j] == s[j]
            && s[j].name@ != new_row.name@ by {
            if s[j].name@ == new_row.name@ {
                lemma_first_log_match_exists(s, new_row, j + 1);
            }
        }
    }
}

} // verus!

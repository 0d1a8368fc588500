//! Sealing a task or a log entry field by field, and opening it again.
//!
//! The cipher itself is handed in as two functions on byte strings, `seal` and
//! `open`; each may fail on a field (it returns `None`). Nothing is assumed of
//! them: the contracts below say which bytes went in and what was done with
//! whatever came back.
use vstd::prelude::*;
use vstd::utf8::encode_utf8;
use crate::structs::{Task, TaskEncrypted, LogEntry, LogEntryEncrypted, same_opt_text, same_log};
use crate::bytes::{
    le_bytes_of, le_value, readable_le, text_of, i32_to_le_bytes, le_bytes_to_i32, bytes_to_text,
    text_bytes, lemma_le_roundtrip, lemma_text_roundtrip,
};

verus! {

/// The function `f` may turn the bytes `input` into the bytes `output`.
pub open spec fn maps_to<F: Fn(Vec<u8>) -> Option<Vec<u8>>>(f: F, input: Seq<u8>, output: Seq<u8>) -> bool {
    exists|a: Vec<u8>, o: Vec<u8>|
        #![trigger call_ensures(f, (a,), Some(o))]
        a@ == input && o@ == output && call_ensures(f, (a,), Some(o))
}

/// The function `f` may refuse the bytes `input`.
pub open spec fn fails_on<F: Fn(Vec<u8>) -> Option<Vec<u8>>>(f: F, input: Seq<u8>) -> bool {
    exists|a: Vec<u8>| #![trigger call_ensures(f, (a,), None::<Vec<u8>>)]
        a@ == input && call_ensures(f, (a,), None::<Vec<u8>>)
}

/// `f` can be called on any bytes.
pub open spec fn callable<F: Fn(Vec<u8>) -> Option<Vec<u8>>>(f: F) -> bool {
    forall|a: Vec<u8>| call_requires(f, (a,))
}

/// Whatever `seal` turns bytes into, `open` turns back into those bytes.
pub open spec fn cipher_pair<S: Fn(Vec<u8>) -> Option<Vec<u8>>, O: Fn(Vec<u8>) -> Option<Vec<u8>>>(
    seal: S,
    open: O,
) -> bool {
    forall|a: Vec<u8>, o: Vec<u8>, b: Vec<u8>, r: Option<Vec<u8>>|
        #![trigger call_ensures(seal, (a,), Some(o)), call_ensures(open, (b,), r)]
        call_ensures(seal, (a,), Some(o)) && b@ == o@ && call_ensures(open, (b,), r) ==> (r matches Some(
            p,
        ) && p@ == a@)
}

/// The bytes stored for a required text field.
pub open spec fn text_payload(s: Option<String>) -> Seq<u8> {
    encode_utf8(s.unwrap()@)
}

/// The comment as stored: the comment, or the text "None".
pub open spec fn stored_comment(s: Option<String>) -> Seq<char> {
    match s {
        Some(c) => c@,
        None => "None"@,
    }
}

/// The bytes stored for the comment.
pub open spec fn comment_payload(s: Option<String>) -> Seq<u8> {
    encode_utf8(stored_comment(s))
}

/// An optional number field was sealed: unset stays unset, a set number is
/// sealed, or left unset when `seal` refused it.
pub open spec fn opt_int_sealed<F: Fn(Vec<u8>) -> Option<Vec<u8>>>(
    seal: F,
    v: Option<i32>,
    c: Option<Vec<u8>>,
) -> bool {
    match (v, c) {
        (None, None) => true,
        (Some(x), Some(b)) => maps_to(seal, le_bytes_of(x), b@),
        (Some(x), None) => fails_on(seal, le_bytes_of(x)),
        (None, Some(_)) => false,
    }
}

/// `e` is what `encrypt_fields` makes of `t` with `seal`.
pub open spec fn task_sealed<F: Fn(Vec<u8>) -> Option<Vec<u8>>>(seal: F, t: Task, e: TaskEncrypted) -> bool {
    &&& maps_to(seal, text_payload(t.name), e.name@)
    &&& maps_to(seal, text_payload(t.shell), e.shell@)
    &&& maps_to(seal, text_payload(t.command), e.command@)
    &&& maps_to(seal, comment_payload(t.comment), e.comment@)
    &&& opt_int_sealed(seal, t.month, e.month)
    &&& opt_int_sealed(seal, t.day_of_month, e.day_of_month)
    &&& opt_int_sealed(seal, t.day_of_week, e.day_of_week)
    &&& opt_int_sealed(seal, t.hour, e.hour)
    &&& opt_int_sealed(seal, t.minute, e.minute)
    &&& maps_to(seal, le_bytes_of(t.year_added), e.year_added@)
    &&& maps_to(seal, le_bytes_of(t.month_added), e.month_added@)
    &&& maps_to(seal, le_bytes_of(t.day_of_month_added), e.day_of_month_added@)
    &&& maps_to(seal, le_bytes_of(t.hour_added), e.hour_added@)
    &&& maps_to(seal, le_bytes_of(t.minute_added), e.minute_added@)
}

/// `seal` may refuse one of the fields that a stored task must have.
pub open spec fn task_seal_refused<F: Fn(Vec<u8>) -> Option<Vec<u8>>>(seal: F, t: Task) -> bool {
    ||| fails_on(seal, text_payload(t.name))
    ||| fails_on(seal, text_payload(t.shell))
    ||| fails_on(seal, text_payload(t.command))
    ||| fails_on(seal, comment_payload(t.comment))
    ||| fails_on(seal, le_bytes_of(t.year_added))
    ||| fails_on(seal, le_bytes_of(t.month_added))
    ||| fails_on(seal, le_bytes_of(t.day_of_month_added))
    ||| fails_on(seal, le_bytes_of(t.hour_added))
    ||| fails_on(seal, le_bytes_of(t.minute_added))
}

/// `open` may turn the sealed bytes `c` into bytes that read as the text `s`.
pub open spec fn opens_to_text<F: Fn(Vec<u8>) -> Option<Vec<u8>>>(open: F, c: Seq<u8>, s: Seq<char>) -> bool {
    exists|p: Seq<u8>| #[trigger] maps_to(open, c, p) && s == text_of(p)
}

/// `open` may turn the sealed bytes `c` into four bytes that read as `v`.
pub open spec fn opens_to_int<F: Fn(Vec<u8>) -> Option<Vec<u8>>>(open: F, c: Seq<u8>, v: i32) -> bool {
    exists|p: Seq<u8>| #[trigger] maps_to(open, c, p) && readable_le(p) && v == le_value(p)
}

/// `open` may fail on the sealed bytes `c`, or give bytes that are no number.
pub open spec fn int_unopenable<F: Fn(Vec<u8>) -> Option<Vec<u8>>>(open: F, c: Seq<u8>) -> bool {
    fails_on(open, c) || exists|p: Seq<u8>| #[trigger] maps_to(open, c, p) && !readable_le(p)
}

/// An optional number field was opened.
pub open spec fn opt_int_opened<F: Fn(Vec<u8>) -> Option<Vec<u8>>>(
    open: F,
    c: Option<Vec<u8>>,
    v: Option<i32>,
) -> bool {
    match (c, v) {
        (None, None) => true,
        (Some(b), Some(x)) => opens_to_int(open, b@, x),
        _ => false,
    }
}

/// An optional number field that `open` may fail on.
pub open spec fn opt_int_unopenable<F: Fn(Vec<u8>) -> Option<Vec<u8>>>(open: F, c: Option<Vec<u8>>) -> bool {
    match c {
        Some(b) => int_unopenable(open, b@),
        None => false,
    }
}

/// `t` is what `decrypt_fields` makes of `e` with `open`.
pub open spec fn task_opened<F: Fn(Vec<u8>) -> Option<Vec<u8>>>(open: F, e: TaskEncrypted, t: Task) -> bool {
    &&& t.name matches Some(n) && opens_to_text(open, e.name@, n@)
    &&& t.shell matches Some(n) && opens_to_text(open, e.shell@, n@)
    &&& t.command matches Some(n) && opens_to_text(open, e.command@, n@)
    &&& t.comment matches Some(n) && opens_to_text(open, e.comment@, n@)
    &&& opt_int_opened(open, e.month, t.month)
    &&& opt_int_opened(open, e.day_of_month, t.day_of_month)
    &&& opt_int_opened(open, e.day_of_week, t.day_of_week)
    &&& opt_int_opened(open, e.hour, t.hour)
    &&& opt_int_opened(open, e.minute, t.minute)
    &&& opens_to_int(open, e.year_added@, t.year_added)
    &&& opens_to_int(open, e.month_added@, t.month_added)
    &&& opens_to_int(open, e.day_of_month_added@, t.day_of_month_added)
    &&& opens_to_int(open, e.hour_added@, t.hour_added)
    &&& opens_to_int(open, e.minute_added@, t.minute_added)
}

/// `open` may fail on some field of `e`.
pub open spec fn task_unopenable<F: Fn(Vec<u8>) -> Option<Vec<u8>>>(open: F, e: TaskEncrypted) -> bool {
    ||| fails_on(open, e.name@)
    ||| fails_on(open, e.shell@)
    ||| fails_on(open, e.command@)
    ||| fails_on(open, e.comment@)
    ||| opt_int_unopenable(open, e.month)
    ||| opt_int_unopenable(open, e.day_of_month)
    ||| opt_int_unopenable(open, e.day_of_week)
    ||| opt_int_unopenable(open, e.hour)
    ||| opt_int_unopenable(open, e.minute)
    ||| int_unopenable(open, e.year_added@)
    ||| int_unopenable(open, e.month_added@)
    ||| int_unopenable(open, e.day_of_month_added@)
    ||| int_unopenable(open, e.hour_added@)
    ||| int_unopenable(open, e.minute_added@)
}

/// Seals one field.
fn seal_bytes<F: Fn(Vec<u8>) -> Option<Vec<u8>>>(seal: &F, plain: Vec<u8>) -> (r: Option<Vec<u8>>)
    requires
        callable(*seal),
    ensures
        match r {
            Some(o) => maps_to(*seal, plain@, o@),
            None => fails_on(*seal, plain@),
        },
{
    let ghost arg = plain;
    let r = seal(plain);
    proof {
        if r is Some {
            assert(call_ensures(*seal, (arg,), Some(r->0)));
        } else {
            assert(call_ensures(*seal, (arg,), None::<Vec<u8>>));
        }
    }
    r
}

/// Seals an optional number: unset stays unset; a refused number becomes unset.
fn seal_opt_int<F: Fn(Vec<u8>) -> Option<Vec<u8>>>(seal: &F, v: Option<i32>) -> (r: Option<Vec<u8>>)
    requires
        callable(*seal),
    ensures
        opt_int_sealed(*seal, v, r),
{
    match v {
        Some(x) => seal_bytes(seal, i32_to_le_bytes(x)),
        None => None,
    }
}

/// Opens a text field; `None` when `open` refuses it.
fn open_text<F: Fn(Vec<u8>) -> Option<Vec<u8>>>(open: &F, c: &Vec<u8>) -> (r: Option<String>)
    requires
        callable(*open),
    ensures
        match r {
            Some(s) => opens_to_text(*open, c@, s@),
            None => fails_on(*open, c@),
        },
{
    match seal_bytes(open, c.clone()) {
        Some(p) => {
            let ghost pv = p@;
            let s = bytes_to_text(p);
            assert(maps_to(*open, c@, pv));
            Some(s)
        },
        None => None,
    }
}

/// Opens a number field; `None` when `open` refuses it or gives bytes that
/// are no number.
fn open_int<F: Fn(Vec<u8>) -> Option<Vec<u8>>>(open: &F, c: &Vec<u8>) -> (r: Option<i32>)
    requires
        callable(*open),
    ensures
        match r {
            Some(v) => opens_to_int(*open, c@, v),
            None => int_unopenable(*open, c@),
        },
{
    match seal_bytes(open, c.clone()) {
        Some(p) => {
            if p.len() >= 4 {
                let v = le_bytes_to_i32(p.as_slice());
                assert(maps_to(*open, c@, p@));
                Some(v)
            } else {
                assert(maps_to(*open, c@, p@));
                None
            }
        },
        None => None,
    }
}

/// Opens an optional number field.
fn open_opt_int<F: Fn(Vec<u8>) -> Option<Vec<u8>>>(open: &F, c: &Option<Vec<u8>>) -> (r: Option<
    Option<i32>,
>)
    requires
        callable(*open),
    ensures
        match r {
            Some(v) => opt_int_opened(*open, *c, v),
            None => opt_int_unopenable(*open, *c),
        },
{
    match c {
        Some(b) => match open_int(open, b) {
            Some(v) => Some(Some(v)),
            None => None,
        },
        None => Some(None),
    }
}

impl Task {
    /// Seals every field of the task with a cell that could be made. The name,
    /// shell and command must be set; an unset comment is stored as the text
    /// "None". A number field that `seal` refuses is stored unset; when `seal`
    /// refuses any other field the result is `None`.
    pub fn encrypt_with<F: Fn(Vec<u8>) -> Option<Vec<u8>>>(task: &Task, seal: &F) -> (r: Option<
        TaskEncrypted,
    >)
        requires
            task.name is Some,
            task.shell is Some,
            task.command is Some,
            callable(*seal),
        ensures
            r matches Some(e) ==> task_sealed(*seal, *task, e),
            r is None ==> task_seal_refused(*seal, *task),
    {
        let name = seal_bytes(seal, text_bytes(task.name.as_ref().unwrap()));
        let shell = seal_bytes(seal, text_bytes(task.shell.as_ref().unwrap()));
        let command = seal_bytes(seal, text_bytes(task.command.as_ref().unwrap()));
        let comment_plain = match &task.comment {
            Some(c) => text_bytes(c),
            None => text_bytes(&"None".to_owned()),
        };
        let comment = seal_bytes(seal, comment_plain);
        let month = seal_opt_int(seal, task.month);
        let day_of_month = seal_opt_int(seal, task.day_of_month);
        let day_of_week = seal_opt_int(seal, task.day_of_week);
        let hour = seal_opt_int(seal, task.hour);
        let minute = seal_opt_int(seal, task.minute);
        let year_added = seal_bytes(seal, i32_to_le_bytes(task.year_added));
        let month_added = seal_bytes(seal, i32_to_le_bytes(task.month_added));
        let day_of_month_added = seal_bytes(seal, i32_to_le_bytes(task.day_of_month_added));
        let hour_added = seal_bytes(seal, i32_to_le_bytes(task.hour_added));
        let minute_added = seal_bytes(seal, i32_to_le_bytes(task.minute_added));
        match (name, shell, command, comment, year_added, month_added, day_of_month_added, hour_added, minute_added) {
            (
                Some(name),
                Some(shell),
                Some(command),
                Some(comment),
                Some(year_added),
                Some(month_added),
                Some(day_of_month_added),
                Some(hour_added),
                Some(minute_added),
            ) => Some(
                TaskEncrypted {
                    name,
                    shell,
                    command,
                    comment,
                    month,
                    day_of_month,
                    day_of_week,
                    hour,
                    minute,
                    year_added,
                    month_added,
                    day_of_month_added,
                    hour_added,
                    minute_added,
                },
            ),
            _ => None,
        }
    }

    /// Opens one stored task.
    fn decrypt_one<F: Fn(Vec<u8>) -> Option<Vec<u8>>>(e: &TaskEncrypted, open: &F) -> (r: Option<Task>)
        requires
            callable(*open),
        ensures
            r matches Some(t) ==> task_opened(*open, *e, t),
            r is None ==> task_unopenable(*open, *e),
    {
        let name = open_text(open, &e.name);
        let shell = open_text(open, &e.shell);
        let command = open_text(open, &e.command);
        let comment = open_text(open, &e.comment);
        let month = open_opt_int(open, &e.month);
        let day_of_month = open_opt_int(open, &e.day_of_month);
        let day_of_week = open_opt_int(open, &e.day_of_week);
        let hour = open_opt_int(open, &e.hour);
        let minute = open_opt_int(open, &e.minute);
        let year_added = open_int(open, &e.year_added);
        let month_added = open_int(open, &e.month_added);
        let day_of_month_added = open_int(open, &e.day_of_month_added);
        let hour_added = open_int(open, &e.hour_added);
        let minute_added = open_int(open, &e.minute_added);
        match (name, shell, command, comment, month, day_of_month, day_of_week, hour, minute) {
            (
                Some(name),
                Some(shell),
                Some(command),
                Some(comment),
                Some(month),
                Some(day_of_month),
                Some(day_of_week),
                Some(hour),
                Some(minute),
            ) => match (year_added, month_added, day_of_month_added, hour_added, minute_added) {
                (
                    Some(year_added),
                    Some(month_added),
                    Some(day_of_month_added),
                    Some(hour_added),
                    Some(minute_added),
                ) => Some(
                    Task {
                        name: Some(name),
                        shell: Some(shell),
                        command: Some(command),
                        comment: Some(comment),
                        month,
                        day_of_month,
                        day_of_week,
                        hour,
                        minute,
                        year_added,
                        month_added,
                        day_of_month_added,
                        hour_added,
                        minute_added,
                    },
                ),
                _ => None,
            },
            _ => None,
        }
    }

    /// Opens every stored task, in order, with a cell that could be made. The
    /// result is `None` when `open` refuses a field of some task, or a number
    /// field opens to fewer than four bytes.
    pub fn decrypt_with<F: Fn(Vec<u8>) -> Option<Vec<u8>>>(
        tasks_encrypted: Vec<TaskEncrypted>,
        open: &F,
    ) -> (r: Option<Vec<Task>>)
        requires
            callable(*open),
        ensures
            r matches Some(ts) ==> ts@.len() == tasks_encrypted@.len() && forall|i: int|
                0 <= i < ts@.len() ==> task_opened(*open, tasks_encrypted@[i], #[trigger] ts@[i]),
            r is None ==> exists|i: int|
                0 <= i < tasks_encrypted@.len() && task_unopenable(*open, #[trigger] tasks_encrypted@[i]),
    {
        let mut out: Vec<Task> = Vec::new();
        let mut i: usize = 0;
        while i < tasks_encrypted.len()
            invariant
                i <= tasks_encrypted@.len(),
                callable(*open),
                out@.len() == i,
                forall|j: int| 0 <= j < i ==> task_opened(*open, tasks_encrypted@[j], #[trigger] out@[j]),
            decreases tasks_encrypted@.len() - i,
        {
            match Task::decrypt_one(&tasks_encrypted[i], open) {
                Some(t) => {
                    out.push(t);
                },
                None => {
                    return None;
                },
            }
            i = i + 1;
        }
        Some(out)
    }
    /// Seals every field of the task. `seal` is the sealing of the cell made
    /// from the key, `None` when no cell could be made from it; then the
    /// result is `None`. Otherwise as `encrypt_with`.
    pub fn encrypt_fields<F: Fn(Vec<u8>) -> Option<Vec<u8>>>(task: &Task, seal: Option<&F>) -> (r: Option<
        TaskEncrypted,
    >)
        requires
            seal is Some ==> task.name is Some && task.shell is Some && task.command is Some,
            seal matches Some(f) ==> callable(*f),
        ensures
            seal is None ==> r is None,
            seal matches Some(f) ==> (r matches Some(e) ==> task_sealed(*f, *task, e)),
            seal matches Some(f) ==> (r is None ==> task_seal_refused(*f, *task)),
    {
        match seal {
            Some(f) => Task::encrypt_with(task, f),
            None => None,
        }
    }

    /// Opens every stored task, in order. `open` is the opening of the cell
    /// made from the key, `None` when no cell could be made from it; then the
    /// result is `None`, whatever the rows. Otherwise as `decrypt_with`.
    pub fn decrypt_fields<F: Fn(Vec<u8>) -> Option<Vec<u8>>>(
        tasks_encrypted: Vec<TaskEncrypted>,
        open: Option<&F>,
    ) -> (r: Option<Vec<Task>>)
        requires
            open matches Some(f) ==> callable(*f),
        ensures
            open is None ==> r is None,
            open matches Some(f) ==> (r matches Some(ts) ==> ts@.len() == tasks_encrypted@.len()
                && forall|i: int|
                0 <= i < ts@.len() ==> task_opened(*f, tasks_encrypted@[i], #[trigger] ts@[i])),
            open matches Some(f) ==> (r is None ==> exists|i: int|
                0 <= i < tasks_encrypted@.len() && task_unopenable(*f, #[trigger] tasks_encrypted@[i])),
    {
        match open {
            Some(f) => Task::decrypt_with(tasks_encrypted, f),
            None => None,
        }
    }

}


/// A task that can be stored: name, shell and command set.
pub open spec fn storable_task(t: Task) -> bool {
    &&& t.name is Some
    &&& t.shell is Some
    &&& t.command is Some
}

/// `t2` is `t` as read back from storage: every field the same, except that an
/// unset comment reads back as the text "None".
pub open spec fn read_back_as(t2: Task, t: Task) -> bool {
    &&& same_opt_text(t2.name, t.name)
    &&& same_opt_text(t2.shell, t.shell)
    &&& same_opt_text(t2.command, t.command)
    &&& t2.comment matches Some(c) && c@ == stored_comment(t.comment)
    &&& t2.month == t.month
    &&& t2.day_of_month == t.day_of_month
    &&& t2.day_of_week == t.day_of_week
    &&& t2.hour == t.hour
    &&& t2.minute == t.minute
    &&& t2.year_added == t.year_added
    &&& t2.month_added == t.month_added
    &&& t2.day_of_month_added == t.day_of_month_added
    &&& t2.hour_added == t.hour_added
    &&& t2.minute_added == t.minute_added
}

/// Every set number field of `t` was sealed (none was refused).
pub open spec fn fully_sealed(t: Task, e: TaskEncrypted) -> bool {
    &&& (t.month is Some <==> e.month is Some)
    &&& (t.day_of_month is Some <==> e.day_of_month is Some)
    &&& (t.day_of_week is Some <==> e.day_of_week is Some)
    &&& (t.hour is Some <==> e.hour is Some)
    &&& (t.minute is Some <==> e.minute is Some)
}

/// A sealed field opens only to what was sealed.
proof fn lemma_field_roundtrip<S: Fn(Vec<u8>) -> Option<Vec<u8>>, O: Fn(Vec<u8>) -> Option<Vec<u8>>>(
    seal: S,
    open: O,
    plain: Seq<u8>,
    c: Seq<u8>,
)
    requires
        cipher_pair(seal, open),
        maps_to(seal, plain, c),
    ensures
        !fails_on(open, c),
        forall|p: Seq<u8>| #[trigger] maps_to(open, c, p) ==> p == plain,
{
    let (a, o) = choose|a: Vec<u8>, o: Vec<u8>|
        a@ == plain && o@ == c && call_ensures(seal, (a,), Some(o));
    if fails_on(open, c) {
        let b = choose|b: Vec<u8>| b@ == c && call_ensures(open, (b,), None::<Vec<u8>>);
        assert(call_ensures(seal, (a,), Some(o)));
        assert(false);
    }
    assert forall|p: Seq<u8>| #[trigger] maps_to(open, c, p) implies p == plain by {
        let (b, q) = choose|b: Vec<u8>, q: Vec<u8>|
            b@ == c && q@ == p && call_ensures(open, (b,), Some(q));
        assert(call_ensures(seal, (a,), Some(o)));
    }
}

/// A sealed text field opens only to the text that was sealed.
proof fn lemma_text_field<S: Fn(Vec<u8>) -> Option<Vec<u8>>, O: Fn(Vec<u8>) -> Option<Vec<u8>>>(
    seal: S,
    open: O,
    s: Seq<char>,
    c: Seq<u8>,
)
    requires
        cipher_pair(seal, open),
        maps_to(seal, encode_utf8(s), c),
    ensures
        !fails_on(open, c),
        forall|x: Seq<char>| opens_to_text(open, c, x) ==> x == s,
{
    lemma_field_roundtrip(seal, open, encode_utf8(s), c);
    lemma_text_roundtrip(s);
}

/// A sealed number field opens only to the number that was sealed.
proof fn lemma_int_field<S: Fn(Vec<u8>) -> Option<Vec<u8>>, O: Fn(Vec<u8>) -> Option<Vec<u8>>>(
    seal: S,
    open: O,
    v: i32,
    c: Seq<u8>,
)
    requires
        cipher_pair(seal, open),
        maps_to(seal, le_bytes_of(v), c),
    ensures
        !int_unopenable(open, c),
        forall|x: i32| opens_to_int(open, c, x) ==> x == v,
{
    lemma_field_roundtrip(seal, open, le_bytes_of(v), c);
    lemma_le_roundtrip(v);
}

/// An optional number field, sealed whole, opens only to its number.
proof fn lemma_opt_int_field<S: Fn(Vec<u8>) -> Option<Vec<u8>>, O: Fn(Vec<u8>) -> Option<Vec<u8>>>(
    seal: S,
    open: O,
    v: Option<i32>,
    c: Option<Vec<u8>>,
)
    requires
        cipher_pair(seal, open),
        opt_int_sealed(seal, v, c),
        v is Some <==> c is Some,
    ensures
        !opt_int_unopenable(open, c),
        forall|x: Option<i32>| opt_int_opened(open, c, x) ==> x == v,
{
    if let Some(x) = v {
        lemma_int_field(seal, open, x, c->0@);
    }
}

/// Law: what is stored is what is read back. A task sealed with `seal` cannot
/// fail to open with `open`, and opens to the same task (an unset comment
/// reading back as "None"), whenever `open` turns back whatever `seal` gives;
/// for tasks whose name, shell and command are set and whose number fields
/// were all sealed.
pub proof fn lemma_task_roundtrip<S: Fn(Vec<u8>) -> Option<Vec<u8>>, O: Fn(Vec<u8>) -> Option<Vec<u8>>>(
    seal: S,
    open: O,
    t: Task,
    e: TaskEncrypted,
)
    requires
        cipher_pair(seal, open),
        task_sealed(seal, t, e),
        fully_sealed(t, e),
        storable_task(t),
    ensures
        !task_unopenable(open, e),
        forall|t2: Task| task_opened(open, e, t2) ==> read_back_as(t2, t),
{
    lemma_text_field(seal, open, t.name->0@, e.name@);
    lemma_text_field(seal, open, t.shell->0@, e.shell@);
    lemma_text_field(seal, open, t.command->0@, e.command@);
    lemma_text_field(seal, open, stored_comment(t.comment), e.comment@);
    lemma_opt_int_field(seal, open, t.month, e.month);
    lemma_opt_int_field(seal, open, t.day_of_month, e.day_of_month);
    lemma_opt_int_field(seal, open, t.day_of_week, e.day_of_week);
    lemma_opt_int_field(seal, open, t.hour, e.hour);
    lemma_opt_int_field(seal, open, t.minute, e.minute);
    lemma_int_field(seal, open, t.year_added, e.year_added@);
    lemma_int_field(seal, open, t.month_added, e.month_added@);
    lemma_int_field(seal, open, t.day_of_month_added, e.day_of_month_added@);
    lemma_int_field(seal, open, t.hour_added, e.hour_added@);
    lemma_int_field(seal, open, t.minute_added, e.minute_added@);
}


/// An optional text was sealed: unset stays unset, a set text is sealed, or
/// left unset when `seal` refused it.
pub open spec fn opt_text_sealed<F: Fn(Vec<u8>) -> Option<Vec<u8>>>(
    seal: F,
    v: Option<String>,
    c: Option<Vec<u8>>,
) -> bool {
    match (v, c) {
        (None, None) => true,
        (Some(x), Some(b)) => maps_to(seal, encode_utf8(x@), b@),
        (Some(x), None) => fails_on(seal, encode_utf8(x@)),
        (None, Some(_)) => false,
    }
}

/// `e` is what `LogEntry::encrypt_fields` makes of `l` with `seal`.
pub open spec fn log_sealed<F: Fn(Vec<u8>) -> Option<Vec<u8>>>(seal: F, l: LogEntry, e: LogEntryEncrypted) -> bool {
    &&& maps_to(seal, encode_utf8(l.name@), e.name@)
    &&& maps_to(seal, encode_utf8(l.command@), e.command@)
    &&& opt_text_sealed(seal, l.output, e.output)
    &&& maps_to(seal, le_bytes_of(l.execution_year), e.execution_year@)
    &&& maps_to(seal, le_bytes_of(l.execution_month), e.execution_month@)
    &&& maps_to(seal, le_bytes_of(l.execution_week), e.execution_week@)
    &&& maps_to(seal, le_bytes_of(l.execution_day_of_month), e.execution_day_of_month@)
    &&& maps_to(seal, le_bytes_of(l.execution_day_of_week), e.execution_day_of_week@)
    &&& maps_to(seal, le_bytes_of(l.execution_hour), e.execution_hour@)
    &&& maps_to(seal, le_bytes_of(l.execution_minute), e.execution_minute@)
}

/// `seal` may refuse one of the fields that a stored log entry must have.
pub open spec fn log_seal_refused<F: Fn(Vec<u8>) -> Option<Vec<u8>>>(seal: F, l: LogEntry) -> bool {
    ||| fails_on(seal, encode_utf8(l.name@))
    ||| fails_on(seal, encode_utf8(l.command@))
    ||| fails_on(seal, le_bytes_of(l.execution_year))
    ||| fails_on(seal, le_bytes_of(l.execution_month))
    ||| fails_on(seal, le_bytes_of(l.execution_week))
    ||| fails_on(seal, le_bytes_of(l.execution_day_of_month))
    ||| fails_on(seal, le_bytes_of(l.execution_day_of_week))
    ||| fails_on(seal, le_bytes_of(l.execution_hour))
    ||| fails_on(seal, le_bytes_of(l.execution_minute))
}

/// `l` is what `LogEntry::decrypt_fields` makes of `e` with `open`.
pub open spec fn log_opened<F: Fn(Vec<u8>) -> Option<Vec<u8>>>(open: F, e: LogEntryEncrypted, l: LogEntry) -> bool {
    &&& opens_to_text(open, e.name@, l.name@)
    &&& opens_to_text(open, e.command@, l.command@)
    &&& match (e.output, l.output) {
        (None, None) => true,
        (Some(c), Some(s)) => opens_to_text(open, c@, s@),
        _ => false,
    }
    &&& opens_to_int(open, e.execution_year@, l.execution_year)
    &&& opens_to_int(open, e.execution_month@, l.execution_month)
    &&& opens_to_int(open, e.execution_week@, l.execution_week)
    &&& opens_to_int(open, e.execution_day_of_month@, l.execution_day_of_month)
    &&& opens_to_int(open, e.execution_day_of_week@, l.execution_day_of_week)
    &&& opens_to_int(open, e.execution_hour@, l.execution_hour)
    &&& opens_to_int(open, e.execution_minute@, l.execution_minute)
}

/// `open` may fail on some field of `e`.
pub open spec fn log_unopenable<F: Fn(Vec<u8>) -> Option<Vec<u8>>>(open: F, e: LogEntryEncrypted) -> bool {
    ||| fails_on(open, e.name@)
    ||| fails_on(open, e.command@)
    ||| (e.output matches Some(c) && fails_on(open, c@))
    ||| int_unopenable(open, e.execution_year@)
    ||| int_unopenable(open, e.execution_month@)
    ||| int_unopenable(open, e.execution_week@)
    ||| int_unopenable(open, e.execution_day_of_month@)
    ||| int_unopenable(open, e.execution_day_of_week@)
    ||| int_unopenable(open, e.execution_hour@)
    ||| int_unopenable(open, e.execution_minute@)
}

impl LogEntry {
    /// Seals every field of the log entry with a cell that could be made. An
    /// output that `seal` refuses is stored unset; when `seal` refuses any
    /// other field the result is `None`.
    pub fn encrypt_with<F: Fn(Vec<u8>) -> Option<Vec<u8>>>(&self, seal: &F) -> (r: Option<
        LogEntryEncrypted,
    >)
        requires
            callable(*seal),
        ensures
            r matches Some(e) ==> log_sealed(*seal, *self, e),
            r is None ==> log_seal_refused(*seal, *self),
    {
        let output = match &self.output {
            Some(out) => seal_bytes(seal, text_bytes(out)),
            None => None,
        };
        let name = seal_bytes(seal, text_bytes(&self.name));
        let command = seal_bytes(seal, text_bytes(&self.command));
        let execution_year = seal_bytes(seal, i32_to_le_bytes(self.execution_year));
        let execution_month = seal_bytes(seal, i32_to_le_bytes(self.execution_month));
        let execution_week = seal_bytes(seal, i32_to_le_bytes(self.execution_week));
        let execution_day_of_month = seal_bytes(seal, i32_to_le_bytes(self.execution_day_of_month));
        let execution_day_of_week = seal_bytes(seal, i32_to_le_bytes(self.execution_day_of_week));
        let execution_hour = seal_bytes(seal, i32_to_le_bytes(self.execution_hour));
        let execution_minute = seal_bytes(seal, i32_to_le_bytes(self.execution_minute));
        match (name, command, execution_year, execution_month, execution_week) {
            (
                Some(name),
                Some(command),
                Some(execution_year),
                Some(execution_month),
                Some(execution_week),
            ) => match (execution_day_of_month, execution_day_of_week, execution_hour, execution_minute) {
                (
                    Some(execution_day_of_month),
                    Some(execution_day_of_week),
                    Some(execution_hour),
                    Some(execution_minute),
                ) => Some(
                    LogEntryEncrypted {
                        name,
                        command,
                        output,
                        execution_year,
                        execution_month,
                        execution_week,
                        execution_day_of_month,
                        execution_day_of_week,
                        execution_hour,
                        execution_minute,
                    },
                ),
                _ => None,
            },
            _ => None,
        }
    }

    /// Opens one stored log entry.
    fn decrypt_one<F: Fn(Vec<u8>) -> Option<Vec<u8>>>(e: &LogEntryEncrypted, open: &F) -> (r: Option<LogEntry>)
        requires
            callable(*open),
        ensures
            r matches Some(l) ==> log_opened(*open, *e, l),
            r is None ==> log_unopenable(*open, *e),
    {
        let name = open_text(open, &e.name);
        let command = open_text(open, &e.command);
        let output: Option<Option<String>> = match &e.output {
            Some(c) => match open_text(open, c) {
                Some(s) => Some(Some(s)),
                None => None,
            },
            None => Some(None),
        };
        let execution_year = open_int(open, &e.execution_year);
        let execution_month = open_int(open, &e.execution_month);
        let execution_week = open_int(open, &e.execution_week);
        let execution_day_of_month = open_int(open, &e.execution_day_of_month);
        let execution_day_of_week = open_int(open, &e.execution_day_of_week);
        let execution_hour = open_int(open, &e.execution_hour);
        let execution_minute = open_int(open, &e.execution_minute);
        match (name, command, output, execution_year, execution_month) {
            (Some(name), Some(command), Some(output), Some(execution_year), Some(execution_month)) => {
                match (execution_week, execution_day_of_month, execution_day_of_week, execution_hour, execution_minute) {
                    (
                        Some(execution_week),
                        Some(execution_day_of_month),
                        Some(execution_day_of_week),
                        Some(execution_hour),
                        Some(execution_minute),
                    ) => Some(
                        LogEntry {
                            name,
                            command,
                            output,
                            execution_year,
                            execution_month,
                            execution_week,
                            execution_day_of_month,
                            execution_day_of_week,
                            execution_hour,
                            execution_minute,
                        },
                    ),
                    _ => None,
                }
            },
            _ => None,
        }
    }

    /// Opens every stored log entry, in order, with a cell that could be made.
    /// The result is `None` when `open` refuses a field of some entry, or a
    /// number field opens to fewer than four bytes.
    pub fn decrypt_with<F: Fn(Vec<u8>) -> Option<Vec<u8>>>(
        log_table: Vec<LogEntryEncrypted>,
        open: &F,
    ) -> (r: Option<Vec<LogEntry>>)
        requires
            callable(*open),
        ensures
            r matches Some(ls) ==> ls@.len() == log_table@.len() && forall|i: int|
                0 <= i < ls@.len() ==> log_opened(*open, log_table@[i], #[trigger] ls@[i]),
            r is None ==> exists|i: int|
                0 <= i < log_table@.len() && log_unopenable(*open, #[trigger] log_table@[i]),
    {
        let mut out: Vec<LogEntry> = Vec::new();
        let mut i: usize = 0;
        while i < log_table.len()
            invariant
                i <= log_table@.len(),
                callable(*open),
                out@.len() == i,
                forall|j: int| 0 <= j < i ==> log_opened(*open, log_table@[j], #[trigger] out@[j]),
            decreases log_table@.len() - i,
        {
            match LogEntry::decrypt_one(&log_table[i], open) {
                Some(l) => {
                    out.push(l);
                },
                None => {
                    return None;
                },
            }
            i = i + 1;
        }
        Some(out)
    }
    /// Seals every field of the log entry. `seal` is the sealing of the cell
    /// made from the key, `None` when no cell could be made from it; then the
    /// result is `None`. Otherwise as `encrypt_with`.
    pub fn encrypt_fields<F: Fn(Vec<u8>) -> Option<Vec<u8>>>(&self, seal: Option<&F>) -> (r: Option<
        LogEntryEncrypted,
    >)
        requires
            seal matches Some(f) ==> callable(*f),
        ensures
            seal is None ==> r is None,
            seal matches Some(f) ==> (r matches Some(e) ==> log_sealed(*f, *self, e)),
            seal matches Some(f) ==> (r is None ==> log_seal_refused(*f, *self)),
    {
        match seal {
            Some(f) => self.encrypt_with(f),
            None => None,
        }
    }

    /// Opens every stored log entry, in order. `open` is the opening of the
    /// cell made from the key, `None` when no cell could be made from it; then
    /// the result is `None`, whatever the rows. Otherwise as `decrypt_with`.
    pub fn decrypt_fields<F: Fn(Vec<u8>) -> Option<Vec<u8>>>(
        log_table: Vec<LogEntryEncrypted>,
        open: Option<&F>,
    ) -> (r: Option<Vec<LogEntry>>)
        requires
            open matches Some(f) ==> callable(*f),
        ensures
            open is None ==> r is None,
            open matches Some(f) ==> (r matches Some(ls) ==> ls@.len() == log_table@.len() && forall|i: int|
                0 <= i < ls@.len() ==> log_opened(*f, log_table@[i], #[trigger] ls@[i])),
            open matches Some(f) ==> (r is None ==> exists|i: int|
                0 <= i < log_table@.len() && log_unopenable(*f, #[trigger] log_table@[i])),
    {
        match open {
            Some(f) => LogEntry::decrypt_with(log_table, f),
            None => None,
        }
    }

}

/// Law: a log entry sealed with `seal` cannot fail to open with `open`, and
/// opens to the same entry, whenever `open` turns back whatever `seal` gives;
/// for entries whose output (if any) was sealed.
pub proof fn lemma_log_roundtrip<S: Fn(Vec<u8>) -> Option<Vec<u8>>, O: Fn(Vec<u8>) -> Option<Vec<u8>>>(
    seal: S,
    open: O,
    l: LogEntry,
    e: LogEntryEncrypted,
)
    requires
        cipher_pair(seal, open),
        log_sealed(seal, l, e),
        l.output is Some <==> e.output is Some,
    ensures
        !log_unopenable(open, e),
        forall|l2: LogEntry| log_opened(open, e, l2) ==> same_log(l2, l),
{
    lemma_text_field(seal, open, l.name@, e.name@);
    lemma_text_field(seal, open, l.command@, e.command@);
    if let Some(out) = l.output {
        lemma_text_field(seal, open, out@, e.output->0@);
    }
    lemma_int_field(seal, open, l.execution_year, e.execution_year@);
    lemma_int_field(seal, open, l.execution_month, e.execution_month@);
    lemma_int_field(seal, open, l.execution_week, e.execution_week@);
    lemma_int_field(seal, open, l.execution_day_of_month, e.execution_day_of_month@);
    lemma_int_field(seal, open, l.execution_day_of_week, e.execution_day_of_week@);
    lemma_int_field(seal, open, l.execution_hour, e.execution_hour@);
    lemma_int_field(seal, open, l.execution_minute, e.execution_minute@);
}

} // verus!

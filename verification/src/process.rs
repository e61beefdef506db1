//! Decisions over the list of running processes: which connection
//! processes to end, and how the open connections are reported.

use vstd::prelude::*;

use crate::handlers::{get_resp, resp_text};
use crate::json::{
    items_view, json_text, json_wf, key_less, lemma_array_wf, lemma_items_view_push,
    lemma_object_wf, object_members, object1, object3, object4, str_value, Json, JsonValue,
};
use crate::text::{
    contains_text, decimal, join_strings, join_with, push_decimal, str_contains, str_eq, views,
};

verus! {

/// A running process as the system lists it.
pub struct ProcessEntry {
    pub pid: u32,
    /// The executable's name.
    pub name: String,
    /// The command line, one argument per element.
    pub cmd: Vec<String>,
}

/// A process of this program whose command line, its arguments joined by
/// spaces, holds `key_word`.
pub open spec fn is_kill_target(p: ProcessEntry, exe_name: Seq<char>, key_word: Seq<char>) -> bool {
    p.name@ == exe_name && contains_text(join_with(views(p.cmd@), " "@), key_word)
}

/// The pids of the kill targets among `procs`, in list order.
pub open spec fn kill_targets(procs: Seq<ProcessEntry>, exe_name: Seq<char>, key_word: Seq<char>) -> Seq<u32>
    decreases procs.len(),
{
    if procs.len() == 0 {
        Seq::empty()
    } else {
        let rest = kill_targets(procs.drop_last(), exe_name, key_word);
        if is_kill_target(procs.last(), exe_name, key_word) {
            rest.push(procs.last().pid)
        } else {
            rest
        }
    }
}

/// `kill_connect`: the processes to end for `key_word`, given the running
/// processes and the name of this program's executable.
pub fn kill_connect(processes: &Vec<ProcessEntry>, current_exe_name: &str, key_word: &str) -> (pids:
    Vec<u32>)
    ensures
        pids@ == kill_targets(processes@, current_exe_name@, key_word@),
{
    let mut pids: Vec<u32> = Vec::new();
    let n = processes.len();
    for i in 0..n
        invariant
            n == processes@.len(),
            pids@ == kill_targets(processes@.take(i as int), current_exe_name@, key_word@),
    {
        let p = &processes[i];
        assert(processes@.take(i + 1).drop_last() =~= processes@.take(i as int));
        if str_eq(p.name.as_str(), current_exe_name) {
            let cmd = join_strings(&p.cmd, " ");
            if str_contains(cmd.as_str(), key_word) {
                pids.push(p.pid);
            }
        }
    }
    assert(processes@.take(n as int) =~= processes@);
    pids
}

/// The argument after the first `--connect` that has one, or the empty
/// string.
pub open spec fn peer_id_in(cmd: Seq<Seq<char>>) -> Seq<char>
    decreases cmd.len(),
{
    if cmd.len() == 0 {
        Seq::empty()
    } else if cmd[0] == "--connect"@ && cmd.len() > 1 {
        cmd[1]
    } else {
        peer_id_in(cmd.drop_first())
    }
}

/// What one process adds to the connection report: a `controller` entry
/// when its arguments hold `--connect`, then a `controlled` entry when they
/// hold `--cm`.
pub open spec fn status_entries(p: ProcessEntry) -> Seq<Json> {
    let cmd = views(p.cmd@);
    let pid = Json::Number(decimal(p.pid as nat));
    let controller = if cmd.contains("--connect"@) {
        seq![
            Json::Object(
                seq![
                    ("name"@, Json::Str(p.name@)),
                    ("peer_id"@, Json::Str(peer_id_in(cmd))),
                    ("pid"@, pid),
                    ("type"@, Json::Str("controller"@)),
                ],
            ),
        ]
    } else {
        Seq::empty()
    };
    let controlled = if cmd.contains("--cm"@) {
        seq![
            Json::Object(
                seq![("name"@, Json::Str(p.name@)), ("pid"@, pid), ("type"@, Json::Str("controlled"@))],
            ),
        ]
    } else {
        Seq::empty()
    };
    controller + controlled
}

/// The connection report entries of `procs`, in list order.
pub open spec fn status_list(procs: Seq<ProcessEntry>) -> Seq<Json>
    decreases procs.len(),
{
    if procs.len() == 0 {
        Seq::empty()
    } else {
        status_list(procs.drop_last()) + status_entries(procs.last())
    }
}

proof fn lemma_status_list_wf(procs: Seq<ProcessEntry>)
    ensures
        forall|i: int| 0 <= i < status_list(procs).len() ==> json_wf(#[trigger] status_list(procs)[i]),
    decreases procs.len(),
{
    if procs.len() > 0 {
        lemma_status_list_wf(procs.drop_last());
        reveal_strlit("name");
        reveal_strlit("peer_id");
        reveal_strlit("pid");
        reveal_strlit("type");
        assert(key_less("name"@, "peer_id"@));
        assert(key_less("peer_id"@, "pid"@)) by {
            reveal_with_fuel(key_less, 3);
        }
        assert(key_less("pid"@, "type"@));
        assert(key_less("name"@, "pid"@));
        let p = procs.last();
        let entries = status_entries(p);
        assert forall|i: int| 0 <= i < entries.len() implies json_wf(#[trigger] entries[i]) by {
            lemma_object_wf(object_members(entries[i]));
        }
        let front = status_list(procs.drop_last());
        assert forall|i: int| 0 <= i < status_list(procs).len() implies json_wf(
            #[trigger] status_list(procs)[i],
        ) by {
            if i < front.len() {
                assert(status_list(procs)[i] == front[i]);
            } else {
                assert(status_list(procs)[i] == entries[i - front.len()]);
            }
        }
    }
}

fn has_arg(cmd: &Vec<String>, arg: &str) -> (b: bool)
    ensures
        b == views(cmd@).contains(arg@),
{
    let n = cmd.len();
    for i in 0..n
        invariant
            n == cmd@.len(),
            forall|j: int| 0 <= j < i ==> cmd@[j]@ != arg@,
    {
        if str_eq(cmd[i].as_str(), arg) {
            assert(views(cmd@)[i as int] == arg@);
            return true;
        }
    }
    assert forall|j: int| 0 <= j < views(cmd@).len() implies views(cmd@)[j] != arg@ by {
        assert(views(cmd@)[j] == cmd@[j]@);
    }
    false
}

/// Arguments before `i` that are not a `--connect` followed by another
/// argument do not change the peer id.
pub proof fn lemma_peer_id_skip(cmd: Seq<Seq<char>>, i: int)
    requires
        0 <= i <= cmd.len(),
        forall|j: int| 0 <= j < i ==> !(#[trigger] cmd[j] == "--connect"@ && j + 1 < cmd.len()),
    ensures
        peer_id_in(cmd) == peer_id_in(cmd.subrange(i, cmd.len() as int)),
    decreases i,
{
    if i > 0 {
        assert(cmd.drop_first().subrange(i - 1, cmd.drop_first().len() as int) =~= cmd.subrange(
            i,
            cmd.len() as int,
        ));
        assert(!(cmd[0] == "--connect"@ && 1 < cmd.len()));
        assert forall|j: int| 0 <= j < i - 1 implies !(#[trigger] cmd.drop_first()[j] == "--connect"@
            && j + 1 < cmd.drop_first().len()) by {
            assert(cmd.drop_first()[j] == cmd[j + 1]);
        }
        lemma_peer_id_skip(cmd.drop_first(), i - 1);
    } else {
        assert(cmd.subrange(0, cmd.len() as int) =~= cmd);
    }
}

fn peer_id(cmd: &Vec<String>) -> (id: String)
    ensures
        id@ == peer_id_in(views(cmd@)),
{
    let ghost c = views(cmd@);
    let n = cmd.len();
    for i in 0..n
        invariant
            n == cmd@.len(),
            c == views(cmd@),
            forall|j: int| 0 <= j < i ==> !(#[trigger] c[j] == "--connect"@ && j + 1 < c.len()),
    {
        if str_eq(cmd[i].as_str(), "--connect") && i + 1 < n {
            proof {
                lemma_peer_id_skip(c, i as int);
                assert(c.subrange(i as int, n as int)[0] == c[i as int]);
                assert(c.subrange(i as int, n as int)[1] == c[i + 1]);
            }
            return cmd[i + 1].clone();
        }
        assert(c[i as int] == cmd@[i as int]@);
    }
    proof {
        lemma_peer_id_skip(c, n as int);
    }
    String::new()
}

/// The pid as a JSON number.
fn pid_value(pid: u32) -> (v: JsonValue)
    ensures
        v@ == Json::Number(decimal(pid as nat)),
{
    let mut s = String::new();
    push_decimal(&mut s, pid as u64);
    JsonValue::Number(s)
}

/// `get_connection_status`, given the processes of this program (the
/// processes named `DarkDesk`): one entry per connection it controls
/// (`--connect`, with the peer id) and one per connection controlling this
/// device (`--cm`).
pub fn get_connection_status(processes: &Vec<ProcessEntry>) -> (res: String)
    ensures
        res@ == resp_text(
            1,
            Seq::empty(),
            json_text(Json::Object(seq![("processes"@, Json::Array(status_list(processes@)))])),
        ),
{
    let mut items: Vec<JsonValue> = Vec::new();
    let n = processes.len();
    for i in 0..n
        invariant
            n == processes@.len(),
            items_view(items@) == status_list(processes@.take(i as int)),
    {
        let p = &processes[i];
        assert(processes@.take(i + 1).drop_last() =~= processes@.take(i as int));
        let ghost before = items_view(items@);
        let connect = has_arg(&p.cmd, "--connect");
        if connect {
            let entry = object4(
                "name",
                str_value(p.name.as_str()),
                "peer_id",
                JsonValue::Str(peer_id(&p.cmd)),
                "pid",
                pid_value(p.pid),
                "type",
                str_value("controller"),
            );
            proof {
                lemma_items_view_push(items@, entry);
            }
            items.push(entry);
        }
        let controlled = has_arg(&p.cmd, "--cm");
        if controlled {
            let entry = object3(
                "name",
                str_value(p.name.as_str()),
                "pid",
                pid_value(p.pid),
                "type",
                str_value("controlled"),
            );
            proof {
                lemma_items_view_push(items@, entry);
            }
            items.push(entry);
        }
        assert(items_view(items@) =~= before + status_entries(processes@[i as int]));
    }
    assert(processes@.take(n as int) =~= processes@);
    let list = JsonValue::Array(items);
    let data = object1("processes", list);
    proof {
        lemma_status_list_wf(processes@);
        lemma_array_wf(status_list(processes@));
        lemma_object_wf(object_members(data@));
    }
    proof {
        reveal_strlit("");
    }
    get_resp(1, "", &data)
}

} // verus!

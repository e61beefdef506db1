//! Properties that hold across the handlers and the request loop.

use vstd::prelude::*;
use vstd::utf8::encode_utf8;

use crate::connection::{is_heartbeat, is_request_for, Request};
use crate::handlers::{
    auto_recording_data, close_connection_spec, connect_fields, new_password_spec, format_error_text, handler_for,
    has_string_members, is_verification_method, launch_args, method_name, my_name_spec,
    ok_text, permanent_password_data, permanent_password_effects, resp_text,
    set_auto_recording_spec, set_custom_server_spec, set_verification_method_spec, status_word,
    temporary_password_data, verification_method_data, EffectSpec, Handler,
};
use crate::json::{entry_lookup, json_get, json_index, str_field, Json};
use crate::messages::{client_id_spec, file_to_hash_spec};
use crate::process::{
    kill_targets, lemma_peer_id_skip, peer_id_in, status_entries, status_list, ProcessEntry,
};
use crate::text::{contains_text, decimal, digit_char, int_text, join_with, occurs_at, views};

verus! {

/// A payload that lacks one of the string members a handler needs is
/// answered with the format error, and the handler changes nothing.
pub proof fn malformed_payload_changes_nothing(p: Json, permanent_password: Seq<char>)
    ensures
        !has_string_members(
            p,
            seq!["video_save_directory"@, "allow_auto_record_incoming"@, "allow_auto_record_outgoing"@],
        ) ==> set_auto_recording_spec(p) == (Seq::<EffectSpec>::empty(), format_error_text()),
        !has_string_members(p, seq!["id"@, "connect_type"@]) ==> close_connection_spec(p) == (
            Seq::<EffectSpec>::empty(),
            format_error_text(),
        ),
        !has_string_members(p, seq!["id-server"@, "relay-server"@, "server-key"@])
            ==> set_custom_server_spec(p) == (Seq::<EffectSpec>::empty(), format_error_text()),
        !has_string_members(p, seq!["method"@]) ==> set_verification_method_spec(
            p,
            permanent_password,
        ) == (Seq::<EffectSpec>::empty(), format_error_text()),
        !has_string_members(p, seq!["my_name"@]) ==> my_name_spec(p) == Err::<Seq<char>, Seq<char>>(
            format_error_text(),
        ),
{
}

/// The verification method that `set_verification_method` stores is read
/// back by `get_verification_method` as the method that was set.
pub proof fn verification_method_round_trip(p: Json, permanent_password: Seq<char>)
    requires
        has_string_members(p, seq!["method"@]),
        str_field(p, "method"@) == "use-permanent-password"@ || str_field(p, "method"@)
            == "use-temporary-password"@ || str_field(p, "method"@) == "use-both-passwords"@,
        !(str_field(p, "method"@) == "use-permanent-password"@ && permanent_password.len() == 0),
    ensures
        ({
            let out = set_verification_method_spec(p, permanent_password);
            &&& out.1 == ok_text()
            &&& out.0.len() == 1
            &&& out.0[0] matches EffectSpec::SetOptions(options)
            &&& options.len() == 1
            &&& options[0].0 == "verification-method"@
            &&& method_name(options[0].1) == str_field(p, "method"@)
        }),
{
    reveal_strlit("use-permanent-password");
    reveal_strlit("use-temporary-password");
    reveal_strlit("use-both-passwords");
}

/// `set_auto_recording` writes a recording switch only with the value `Y`
/// or `N`, and answers success exactly when it wrote both.
pub proof fn recording_switches_are_yes_or_no(p: Json)
    ensures
        ({
            let out = set_auto_recording_spec(p);
            &&& forall|i: int|
                0 <= i < out.0.len() ==> match #[trigger] out.0[i] {
                    EffectSpec::SetConfigOption(k, v) => k == "allow-auto-record-incoming"@ && (v
                        == "Y"@ || v == "N"@),
                    EffectSpec::SetLocalOption(k, v) => (k == "allow-auto-record-outgoing"@ && (v
                        == "Y"@ || v == "N"@)) || k == "video-save-directory"@,
                    _ => false,
                }
            &&& out.1 == ok_text() <==> (has_string_members(
                p,
                seq![
                    "video_save_directory"@,
                    "allow_auto_record_incoming"@,
                    "allow_auto_record_outgoing"@,
                ],
            ) && (str_field(p, "allow_auto_record_incoming"@) == "Y"@ || str_field(
                p,
                "allow_auto_record_incoming"@,
            ) == "N"@) && (str_field(p, "allow_auto_record_outgoing"@) == "Y"@ || str_field(
                p,
                "allow_auto_record_outgoing"@,
            ) == "N"@))
        }),
{
    reveal_strlit("video-save-directory");
    reveal_strlit("allow-auto-record-outgoing");
    lemma_code_in_text(0, "allow_auto_record_incoming error,only Y or N"@, "null"@);
    lemma_code_in_text(0, "allow_auto_record_outgoing error,only Y or N"@, "null"@);
    lemma_code_in_text(-1, "payload args format error"@, "null"@);
    lemma_code_in_text(1, Seq::empty(), "null"@);
}

/// The first character after `"code": ` in a response is the first
/// character of its code.
proof fn lemma_code_in_text(code: int, msg: Seq<char>, data: Seq<char>)
    ensures
        resp_text(code, msg, data).len() > "{\n    \"code\": "@.len(),
        resp_text(code, msg, data)["{\n    \"code\": "@.len() as int] == int_text(code)[0],
        int_text(code).len() > 0,
        code == 0 ==> int_text(code)[0] == '0',
        code == 1 ==> int_text(code)[0] == '1',
        code == -1 ==> int_text(code)[0] == '-',
{
    let pre = "{\n    \"code\": "@;
    assert(int_text(code).len() > 0) by {
        if code < 0 {
        } else {
            assert(decimal(code as nat).len() > 0) by {
                if code >= 10 {
                    assert(decimal(code as nat) == decimal((code / 10) as nat).push(
                        digit_char((code % 10) as int),
                    ));
                }
            }
        }
    }
    let rest = ",\n    \"msg\": \""@ + msg + "\",\n    \"data\": "@ + data + "\n}"@;
    assert(resp_text(code, msg, data) =~= pre + int_text(code) + rest);
    assert((pre + int_text(code) + rest)[pre.len() as int] == int_text(code)[0]);
}

/// A request whose text opens a JSON object or array is never taken for a
/// keep-alive probe.
pub proof fn json_requests_are_not_heartbeats(clean: Seq<char>)
    requires
        clean.len() > 0,
        clean[0] == '{' || clean[0] == '[',
    ensures
        !is_heartbeat(clean),
{
    reveal_strlit("ping");
    reveal_strlit("heartbeat");
    if clean == "ping"@ {
        assert(clean[0] == 'p');
    }
    if clean == "heartbeat"@ {
        assert(clean[0] == 'h');
    }
}

proof fn lemma_join_prefix(parts: Seq<Seq<char>>, sep: Seq<char>, j: int)
    requires
        1 <= j <= parts.len(),
    ensures
        join_with(parts, sep).subrange(0, join_with(parts.take(j), sep).len() as int) == join_with(
            parts.take(j),
            sep,
        ),
        join_with(parts.take(j), sep).len() <= join_with(parts, sep).len(),
    decreases parts.len(),
{
    if j == parts.len() {
        assert(parts.take(j) =~= parts);
        assert(join_with(parts, sep).subrange(0, join_with(parts, sep).len() as int) =~= join_with(
            parts,
            sep,
        ));
    } else {
        let front = parts.drop_last();
        assert(front.take(j) =~= parts.take(j));
        lemma_join_prefix(front, sep, j);
        let whole = join_with(parts, sep);
        let pre = join_with(front, sep);
        assert(whole == pre + sep + parts.last());
        assert(whole.subrange(0, join_with(parts.take(j), sep).len() as int) =~= pre.subrange(
            0,
            join_with(parts.take(j), sep).len() as int,
        ));
    }
}

/// A connection that `create_new_connect` starts for peer `remote_id` runs
/// with a command line that holds the keyword by which
/// `close_connection_by_id` ends the connection of that type with that peer.
pub proof fn launched_connection_is_closable(
    program: Seq<char>,
    connect_type: Seq<char>,
    given_id: Seq<char>,
    remote_id: Seq<char>,
    password: Seq<char>,
)
    ensures
        contains_text(
            join_with(seq![program] + launch_args(connect_type, given_id, remote_id, password), " "@),
            "--"@ + connect_type + " "@ + remote_id,
        ),
{
    let parts = seq![program] + launch_args(connect_type, given_id, remote_id, password);
    let sep = " "@;
    let needle = "--"@ + connect_type + " "@ + remote_id;
    lemma_join_prefix(parts, sep, 3);
    let t3 = parts.take(3);
    let t2 = t3.drop_last();
    let t1 = t2.drop_last();
    assert(t3[1] == "--"@ + connect_type);
    assert(t3[2] == remote_id);
    assert(join_with(t3, sep) == join_with(t2, sep) + sep + t3[2]);
    assert(join_with(t2, sep) == join_with(t1, sep) + sep + t2[1]);
    let start: int = join_with(t1, sep).len() as int + sep.len() as int;
    let whole = join_with(parts, sep);
    assert(join_with(t3, sep) =~= join_with(t1, sep) + sep + needle);
    assert(whole.subrange(start, start + needle.len()) =~= join_with(t3, sep).subrange(
        start,
        start + needle.len(),
    ));
    let len3 = join_with(t3, sep).len() as int;
    assert(start + needle.len() <= len3);
    assert(whole.subrange(0, len3).subrange(start, start + needle.len()) =~= whole.subrange(
        start,
        start + needle.len(),
    ));
    assert(join_with(t3, sep).subrange(start, start + needle.len()) =~= needle);
    assert(occurs_at(whole, needle, start));
}


/// `pid` is the pid of a listed process of this program whose command line
/// holds `key_word`.
pub open spec fn is_pid_of_match(
    procs: Seq<ProcessEntry>,
    pid: u32,
    exe_name: Seq<char>,
    key_word: Seq<char>,
) -> bool {
    exists|i: int|
        0 <= i < procs.len() && (#[trigger] procs[i]).pid == pid && procs[i].name@ == exe_name
            && contains_text(join_with(views(procs[i].cmd@), " "@), key_word)
}

/// `kill_connect` ends only listed processes of this program whose command
/// line holds the keyword, and it ends each of them.
pub proof fn kill_targets_are_exactly_the_matches(
    procs: Seq<ProcessEntry>,
    exe_name: Seq<char>,
    key_word: Seq<char>,
)
    ensures
        forall|k: int|
            0 <= k < kill_targets(procs, exe_name, key_word).len() ==> is_pid_of_match(
                procs,
                #[trigger] kill_targets(procs, exe_name, key_word)[k],
                exe_name,
                key_word,
            ),
        forall|i: int|
            0 <= i < procs.len() && (#[trigger] procs[i]).name@ == exe_name && contains_text(
                join_with(views(procs[i].cmd@), " "@),
                key_word,
            ) ==> kill_targets(procs, exe_name, key_word).contains(procs[i].pid),
    decreases procs.len(),
{
    if procs.len() > 0 {
        let front = procs.drop_last();
        kill_targets_are_exactly_the_matches(front, exe_name, key_word);
        let rest = kill_targets(front, exe_name, key_word);
        let all = kill_targets(procs, exe_name, key_word);
        assert forall|k: int| 0 <= k < all.len() implies is_pid_of_match(
            procs,
            #[trigger] all[k],
            exe_name,
            key_word,
        ) by {
            if k < rest.len() {
                assert(is_pid_of_match(front, rest[k], exe_name, key_word));
                let i = choose|i: int|
                    0 <= i < front.len() && (#[trigger] front[i]).pid == rest[k] && front[i].name@
                        == exe_name && contains_text(join_with(views(front[i].cmd@), " "@), key_word);
                assert(procs[i] == front[i]);
            } else {
                assert(procs[procs.len() - 1] == procs.last());
            }
        }
        assert forall|i: int|
            0 <= i < procs.len() && (#[trigger] procs[i]).name@ == exe_name && contains_text(
                join_with(views(procs[i].cmd@), " "@),
                key_word,
            ) implies all.contains(procs[i].pid) by {
            if i < procs.len() - 1 {
                assert(front[i] == procs[i]);
                let k = choose|k: int| 0 <= k < rest.len() && rest[k] == front[i].pid;
                assert(all[k] == rest[k]);
            } else {
                assert(all[all.len() - 1] == procs[i].pid);
            }
        }
    }
}


/// A request whose `action` member is a string is dispatched with that
/// action and with its `payload` member exactly as it stands, whatever its
/// size; the payload is `null` only where the member is absent.
pub proof fn dispatch_carries_action_and_payload(parsed: Result<Json, Seq<char>>, req: Request)
    requires
        is_request_for(parsed, req),
        parsed is Ok,
        json_get(parsed->Ok_0, "action"@) matches Some(Json::Str(_)),
    ensures
        req matches Request::Dispatch { action, payload } && json_get(parsed->Ok_0, "action"@)
            == Some(Json::Str(action@)) && payload@ == match json_get(parsed->Ok_0, "payload"@) {
            Some(m) => m,
            None => Json::Null,
        },
{
}

/// A request that is not JSON, or whose `action` member is missing or not
/// a string, is answered and not dispatched.
pub proof fn undispatchable_requests_are_answered(parsed: Result<Json, Seq<char>>, req: Request)
    requires
        is_request_for(parsed, req),
        !(parsed is Ok && json_get(parsed->Ok_0, "action"@) matches Some(Json::Str(_))),
    ensures
        req is Reply,
{
}

/// `close_connection_by_id` ends the processes whose command line holds
/// `--<connect_type> <id>`: the keyword names the payload's connection type
/// and ends with a space and the payload's id, for every connection type.
pub proof fn close_keyword_names_type_and_peer(p: Json)
    requires
        has_string_members(p, seq!["id"@, "connect_type"@]),
    ensures
        ({
            let out = close_connection_spec(p);
            let id = str_field(p, "id"@);
            &&& out.1 == ok_text()
            &&& out.0.len() == 1
            &&& out.0[0] matches EffectSpec::KillConnect(k) && k == "--"@ + str_field(
                p,
                "connect_type"@,
            ) + " "@ + id && k.len() > id.len() && k.subrange(k.len() - id.len(), k.len() as int)
                == id && k[k.len() - id.len() - 1] == ' '
        }),
{
    let id = str_field(p, "id"@);
    let t = str_field(p, "connect_type"@);
    reveal_strlit("--");
    reveal_strlit(" ");
    let k = "--"@ + t + " "@ + id;
    assert(k.subrange(k.len() - id.len(), k.len() as int) =~= id);
    assert(k[k.len() - id.len() - 1] == " "@[0]);
}

/// The arguments that start a connection are the connection type as a
/// flag, the resolved peer id, `--password` and the peer's temporary
/// password, for every connection type, then `--relay` exactly when
/// resolving the given id changed it.
pub proof fn launch_arguments_carry_type_peer_and_password(
    connect_type: Seq<char>,
    given_id: Seq<char>,
    remote_id: Seq<char>,
    password: Seq<char>,
)
    ensures
        ({
            let a = launch_args(connect_type, given_id, remote_id, password);
            &&& a.len() == if given_id != remote_id { 5int } else { 4int }
            &&& a[0] == "--"@ + connect_type
            &&& a[1] == remote_id
            &&& a[2] == "--password"@
            &&& a[3] == password
            &&& given_id != remote_id ==> a[4] == "--relay"@
        }),
{
}

/// `set_auto_recording` stores, under each key, exactly the value that the
/// payload gives for it: the directory under `video-save-directory` (only
/// when it is not empty), the incoming switch under
/// `allow-auto-record-incoming` and the outgoing switch under
/// `allow-auto-record-outgoing`, each independent of the others. When it
/// answers success it has stored both switches.
pub proof fn recording_options_are_the_payload_values(p: Json)
    ensures
        ({
            let out = set_auto_recording_spec(p);
            let dir = str_field(p, "video_save_directory"@);
            let incoming = str_field(p, "allow_auto_record_incoming"@);
            let outgoing = str_field(p, "allow_auto_record_outgoing"@);
            &&& forall|i: int|
                0 <= i < out.0.len() ==> match #[trigger] out.0[i] {
                    EffectSpec::SetConfigOption(k, v) => k == "allow-auto-record-incoming"@ && v
                        == incoming,
                    EffectSpec::SetLocalOption(k, v) => (k == "video-save-directory"@ && v == dir
                        && v.len() != 0) || (k == "allow-auto-record-outgoing"@ && v == outgoing),
                    _ => false,
                }
            &&& out.1 == ok_text() ==> {
                &&& out.0.contains(
                    EffectSpec::SetConfigOption("allow-auto-record-incoming"@, incoming),
                )
                &&& out.0.contains(EffectSpec::SetLocalOption("allow-auto-record-outgoing"@, outgoing))
            }
        }),
{
    let out = set_auto_recording_spec(p);
    lemma_code_in_text(0, "allow_auto_record_incoming error,only Y or N"@, "null"@);
    lemma_code_in_text(0, "allow_auto_record_outgoing error,only Y or N"@, "null"@);
    lemma_code_in_text(-1, "payload args format error"@, "null"@);
    lemma_code_in_text(1, Seq::empty(), "null"@);
    if out.1 == ok_text() {
        let n = out.0.len();
        assert(out.0[n - 2] == EffectSpec::SetConfigOption(
            "allow-auto-record-incoming"@,
            str_field(p, "allow_auto_record_incoming"@),
        ));
        assert(out.0[n - 1] == EffectSpec::SetLocalOption(
            "allow-auto-record-outgoing"@,
            str_field(p, "allow_auto_record_outgoing"@),
        ));
    }
}


/// The connection report lists, for every process whose arguments include
/// `--connect`, whatever its other arguments, a `controller` entry with its
/// name, the peer id after `--connect`, and its pid as a number; and for
/// every process whose arguments include `--cm` a `controlled` entry.
pub proof fn every_connection_process_is_reported(procs: Seq<ProcessEntry>, i: int)
    requires
        0 <= i < procs.len(),
    ensures
        views(procs[i].cmd@).contains("--connect"@) ==> status_list(procs).contains(
            Json::Object(
                seq![
                    ("name"@, Json::Str(procs[i].name@)),
                    ("peer_id"@, Json::Str(peer_id_in(views(procs[i].cmd@)))),
                    ("pid"@, Json::Number(decimal(procs[i].pid as nat))),
                    ("type"@, Json::Str("controller"@)),
                ],
            ),
        ),
        views(procs[i].cmd@).contains("--cm"@) ==> status_list(procs).contains(
            Json::Object(
                seq![
                    ("name"@, Json::Str(procs[i].name@)),
                    ("pid"@, Json::Number(decimal(procs[i].pid as nat))),
                    ("type"@, Json::Str("controlled"@)),
                ],
            ),
        ),
    decreases procs.len(),
{
    let front = procs.drop_last();
    let list = status_list(procs);
    let before = status_list(front);
    assert(list == before + crate::process::status_entries(procs.last()));
    if i < procs.len() - 1 {
        every_connection_process_is_reported(front, i);
        assert(front[i] == procs[i]);
        assert forall|x: Json| before.contains(x) implies list.contains(x) by {
            let k = choose|k: int| 0 <= k < before.len() && before[k] == x;
            assert(list[k] == x);
        }
    } else {
        let e = crate::process::status_entries(procs.last());
        assert forall|x: Json| e.contains(x) implies list.contains(x) by {
            let k = choose|k: int| 0 <= k < e.len() && e[k] == x;
            assert(list[before.len() + k] == x);
        }
        let cmd = views(procs[i].cmd@);
        if cmd.contains("--connect"@) {
            assert(e[0] == Json::Object(
                seq![
                    ("name"@, Json::Str(procs[i].name@)),
                    ("peer_id"@, Json::Str(peer_id_in(cmd))),
                    ("pid"@, Json::Number(decimal(procs[i].pid as nat))),
                    ("type"@, Json::Str("controller"@)),
                ],
            ));
        }
        if cmd.contains("--cm"@) {
            assert(e[e.len() - 1] == Json::Object(
                seq![
                    ("name"@, Json::Str(procs[i].name@)),
                    ("pid"@, Json::Number(decimal(procs[i].pid as nat))),
                    ("type"@, Json::Str("controlled"@)),
                ],
            ));
        }
    }
}


/// The controller entry that the connection report gives a process.
pub open spec fn controller_entry_of(p: ProcessEntry) -> Json {
    Json::Object(
        seq![
            ("name"@, Json::Str(p.name@)),
            ("peer_id"@, Json::Str(peer_id_in(views(p.cmd@)))),
            ("pid"@, Json::Number(decimal(p.pid as nat))),
            ("type"@, Json::Str("controller"@)),
        ],
    )
}

/// The controlled entry that the connection report gives a process.
pub open spec fn controlled_entry_of(p: ProcessEntry) -> Json {
    Json::Object(
        seq![
            ("name"@, Json::Str(p.name@)),
            ("pid"@, Json::Number(decimal(p.pid as nat))),
            ("type"@, Json::Str("controlled"@)),
        ],
    )
}

/// The connection report holds nothing else: each entry is the controller
/// entry of a listed process whose arguments include `--connect`, or the
/// controlled entry of one whose arguments include `--cm`.
pub proof fn reported_entries_come_from_connection_processes(procs: Seq<ProcessEntry>, k: int)
    requires
        0 <= k < status_list(procs).len(),
    ensures
        exists|i: int|
            0 <= i < procs.len() && ((views(procs[i].cmd@).contains("--connect"@)
                && status_list(procs)[k] == controller_entry_of(#[trigger] procs[i])) || (views(
                procs[i].cmd@,
            ).contains("--cm"@) && status_list(procs)[k] == controlled_entry_of(procs[i]))),
    decreases procs.len(),
{
    let front = procs.drop_last();
    let before = status_list(front);
    let list = status_list(procs);
    let e = crate::process::status_entries(procs.last());
    assert(list == before + e);
    if k < before.len() {
        reported_entries_come_from_connection_processes(front, k);
        let i = choose|i: int|
            0 <= i < front.len() && ((views(front[i].cmd@).contains("--connect"@) && before[k]
                == controller_entry_of(#[trigger] front[i])) || (views(front[i].cmd@).contains(
                "--cm"@,
            ) && before[k] == controlled_entry_of(front[i])));
        assert(procs[i] == front[i]);
        assert(list[k] == before[k]);
    } else {
        let last = procs.len() - 1;
        assert(procs[last] == procs.last());
        assert(list[k] == e[k - before.len()]);
        let cmd = views(procs.last().cmd@);
        if cmd.contains("--connect"@) && k - before.len() == 0 {
            assert(e[0] == controller_entry_of(procs[last]));
        } else {
            assert(e[k - before.len()] == controlled_entry_of(procs[last]));
        }
    }
}


/// `set_custom_server` stores the payload's relay server under
/// `relay-server`, its id server under `custom-rendezvous-server` and its
/// server key under `key`, nothing else, and answers success.
pub proof fn custom_server_options_are_the_payload_values(p: Json)
    requires
        has_string_members(p, seq!["id-server"@, "relay-server"@, "server-key"@]),
    ensures
        ({
            let out = set_custom_server_spec(p);
            let relay = ("relay-server"@, str_field(p, "relay-server"@));
            let rendezvous = ("custom-rendezvous-server"@, str_field(p, "id-server"@));
            let key = ("key"@, str_field(p, "server-key"@));
            &&& out.1 == ok_text()
            &&& out.0.len() == 1
            &&& out.0[0] matches EffectSpec::SetOptions(o) && o.contains(relay) && o.contains(
                rendezvous,
            ) && o.contains(key) && forall|i: int|
                0 <= i < o.len() ==> #[trigger] o[i] == relay || o[i] == rendezvous || o[i] == key
        }),
{
    let out = set_custom_server_spec(p);
    if let EffectSpec::SetOptions(o) = out.0[0] {
        assert(o[0] == ("relay-server"@, str_field(p, "relay-server"@)));
        assert(o[1] == ("custom-rendezvous-server"@, str_field(p, "id-server"@)));
        assert(o[2] == ("key"@, str_field(p, "server-key"@)));
    }
}

/// `set_verification_method` stores nothing and answers with code 0 when
/// the method is not one of the three, or when it asks for the permanent
/// password alone and none is set.
pub proof fn verification_method_refusals(p: Json, permanent_password: Seq<char>)
    requires
        has_string_members(p, seq!["method"@]),
        ({
            let m = str_field(p, "method"@);
            ||| (m != "use-permanent-password"@ && m != "use-temporary-password"@ && m
                != "use-both-passwords"@)
            ||| (m == "use-permanent-password"@ && permanent_password.len() == 0)
        }),
    ensures
        ({
            let out = set_verification_method_spec(p, permanent_password);
            &&& out.0.len() == 0
            &&& exists|msg: Seq<char>| out.1 == #[trigger] resp_text(0, msg, "null"@)
        }),
{
    let out = set_verification_method_spec(p, permanent_password);
    if !is_verification_method(str_field(p, "method"@)) {
        assert(out.1 == resp_text(
            0,
            "Invalid method. Valid values: use-permanent-password, use-temporary-password, use-both-passwords"@,
            "null"@,
        ));
    } else {
        assert(out.1 == resp_text(
            0,
            "Cannot use permanent password only: no permanent password set"@,
            "null"@,
        ));
    }
}

/// The server status is `READY` exactly when the rendezvous state is
/// positive, `CONNECTING` exactly when it is zero and `NOT_READY` exactly
/// when it is negative.
pub proof fn server_status_words(online_state: int)
    ensures
        status_word(online_state) == "READY"@ <==> online_state > 0,
        status_word(online_state) == "CONNECTING"@ <==> online_state == 0,
        status_word(online_state) == "NOT_READY"@ <==> online_state < 0,
{
    reveal_strlit("READY");
    reveal_strlit("CONNECTING");
    reveal_strlit("NOT_READY");
    assert("READY"@ != "CONNECTING"@ && "READY"@ != "NOT_READY"@ && "CONNECTING"@ != "NOT_READY"@)
        by {
        assert("READY"@.len() != "CONNECTING"@.len());
        assert("READY"@.len() != "NOT_READY"@.len());
        assert("CONNECTING"@.len() != "NOT_READY"@.len());
    }
}

/// Both temporary password actions store the payload's `my_name` member
/// when it is a string.
pub proof fn device_name_is_the_payload_member(p: Json)
    requires
        json_get(p, "my_name"@) matches Some(Json::Str(_)),
    ensures
        my_name_spec(p) == Ok::<Seq<char>, Seq<char>>(json_index(p, "my_name"@)->Str_0),
{
}

/// The temporary password answer gives this device's id under `id` and the
/// password under `temporary_password`.
pub proof fn temporary_password_answer_members(password: Seq<char>, id: Seq<char>)
    ensures
        json_get(temporary_password_data(password, id), "id"@) == Some(Json::Str(id)),
        json_get(temporary_password_data(password, id), "temporary_password"@) == Some(
            Json::Str(password),
        ),
{
    reveal_strlit("id");
    reveal_strlit("temporary_password");
    let entries = seq![("id"@, Json::Str(id)), ("temporary_password"@, Json::Str(password))];
    assert("id"@ != "temporary_password"@) by {
        assert("id"@.len() != "temporary_password"@.len());
    }
    assert(temporary_password_data(password, id) == Json::Object(entries));
    assert(entry_lookup(entries, "id"@) == Some(Json::Str(id)));
    let rest = entries.drop_first();
    assert(rest[0] == ("temporary_password"@, Json::Str(password)));
    assert(entry_lookup(rest, "temporary_password"@) == Some(Json::Str(password)));
    assert(entry_lookup(entries, "temporary_password"@) == entry_lookup(rest, "temporary_password"@));
}

/// The name of the action that selects `h`.
pub open spec fn action_name(h: Handler) -> Seq<char> {
    match h {
        Handler::GetTemporaryPassword => "get_temporary_password"@,
        Handler::UpdateTemporaryPassword => "update_temporary_password"@,
        Handler::CreateNewConnect => "create_new_connect"@,
        Handler::GetServerStatus => "get_server_status"@,
        Handler::SetCustomServer => "set_custom_server"@,
        Handler::GetConnectionStatus => "get_connection_status"@,
        Handler::CloseConnectionById => "close_connection_by_id"@,
        Handler::SetAutoRecording => "set_auto_recording"@,
        Handler::GetAutoRecording => "get_auto_recording"@,
        Handler::SetPermanentPassword => "set_permanent_password"@,
        Handler::GetPermanentPassword => "get_permanent_password"@,
        Handler::SetVerificationMethod => "set_verification_method"@,
        Handler::GetVerificationMethod => "get_verification_method"@,
        Handler::WrongAction => Seq::empty(),
    }
}

/// Each handler is selected by its own action name and by no other: an
/// action that selects a handler is that handler's name, and every
/// handler's name selects it.
pub proof fn actions_select_their_handlers(action: Seq<char>, h: Handler)
    ensures
        handler_for(action) != Handler::WrongAction ==> action_name(handler_for(action)) == action,
        h != Handler::WrongAction ==> handler_for(action_name(h)) == h,
{
    // Each name differs from every other in its length, its first character
    // or its fifth.
    reveal_strlit("get_temporary_password");
    reveal_strlit("update_temporary_password");
    reveal_strlit("create_new_connect");
    reveal_strlit("get_server_status");
    reveal_strlit("set_custom_server");
    reveal_strlit("get_connection_status");
    reveal_strlit("close_connection_by_id");
    reveal_strlit("set_auto_recording");
    reveal_strlit("get_auto_recording");
    reveal_strlit("set_permanent_password");
    reveal_strlit("get_permanent_password");
    reveal_strlit("set_verification_method");
    reveal_strlit("get_verification_method");
    assert("get_temporary_password"@.len() == 22 && "get_temporary_password"@[0] == 'g' && "get_temporary_password"@[4] == 't');
    assert("update_temporary_password"@.len() == 25 && "update_temporary_password"@[0] == 'u' && "update_temporary_password"@[4] == 't');
    assert("create_new_connect"@.len() == 18 && "create_new_connect"@[0] == 'c' && "create_new_connect"@[4] == 't');
    assert("get_server_status"@.len() == 17 && "get_server_status"@[0] == 'g' && "get_server_status"@[4] == 's');
    assert("set_custom_server"@.len() == 17 && "set_custom_server"@[0] == 's' && "set_custom_server"@[4] == 'c');
    assert("get_connection_status"@.len() == 21 && "get_connection_status"@[0] == 'g' && "get_connection_status"@[4] == 'c');
    assert("close_connection_by_id"@.len() == 22 && "close_connection_by_id"@[0] == 'c' && "close_connection_by_id"@[4] == 'e');
    assert("set_auto_recording"@.len() == 18 && "set_auto_recording"@[0] == 's' && "set_auto_recording"@[4] == 'a');
    assert("get_auto_recording"@.len() == 18 && "get_auto_recording"@[0] == 'g' && "get_auto_recording"@[4] == 'a');
    assert("set_permanent_password"@.len() == 22 && "set_permanent_password"@[0] == 's' && "set_permanent_password"@[4] == 'p');
    assert("get_permanent_password"@.len() == 22 && "get_permanent_password"@[0] == 'g' && "get_permanent_password"@[4] == 'p');
    assert("set_verification_method"@.len() == 23 && "set_verification_method"@[0] == 's' && "set_verification_method"@[4] == 'v');
    assert("get_verification_method"@.len() == 23 && "get_verification_method"@[0] == 'g' && "get_verification_method"@[4] == 'v');
}

/// The peer id that the connection report gives is the argument right
/// after the first `--connect` that is followed by one.
pub proof fn peer_id_follows_first_connect(cmd: Seq<Seq<char>>, i: int)
    requires
        0 <= i,
        i + 1 < cmd.len(),
        cmd[i] == "--connect"@,
        forall|j: int| 0 <= j < i ==> !(#[trigger] cmd[j] == "--connect"@ && j + 1 < cmd.len()),
    ensures
        peer_id_in(cmd) == cmd[i + 1],
{
    lemma_peer_id_skip(cmd, i);
    let rest = cmd.subrange(i, cmd.len() as int);
    assert(rest[0] == cmd[i] && rest[1] == cmd[i + 1]);
}

/// Without a `--connect` that is followed by an argument, the peer id is
/// empty.
pub proof fn peer_id_empty_without_connect(cmd: Seq<Seq<char>>)
    requires
        forall|j: int| 0 <= j < cmd.len() ==> !(#[trigger] cmd[j] == "--connect"@ && j + 1 < cmd.len()),
    ensures
        peer_id_in(cmd) == Seq::<char>::empty(),
{
    lemma_peer_id_skip(cmd, cmd.len() as int);
    assert(cmd.subrange(cmd.len() as int, cmd.len() as int).len() == 0);
}

/// The client id is the third command line argument when there is one, and
/// empty when there is at most the program name.
pub proof fn client_id_is_third_argument(args: Seq<Seq<char>>)
    ensures
        args.len() > 2 ==> client_id_spec(args) == args[2],
        args.len() <= 1 ==> client_id_spec(args) == Seq::<char>::empty(),
{
}

/// A sent file's log carries the digest of the sent file, a received
/// file's the digest of the target path, and any other transfer none.
pub proof fn hashed_file_follows_transfer_direction(
    transfer_type: Seq<char>,
    to_path: Seq<char>,
    file_name: Seq<char>,
)
    ensures
        transfer_type == "SEND_FILE"@ ==> file_to_hash_spec(transfer_type, to_path, file_name)
            == file_name,
        transfer_type == "RECEIVE_FILE"@ ==> file_to_hash_spec(transfer_type, to_path, file_name)
            == to_path,
        transfer_type != "SEND_FILE"@ && transfer_type != "RECEIVE_FILE"@ ==> file_to_hash_spec(
            transfer_type,
            to_path,
            file_name,
        ) == Seq::<char>::empty(),
{
    reveal_strlit("SEND_FILE");
    reveal_strlit("RECEIVE_FILE");
    assert("SEND_FILE"@ != "RECEIVE_FILE"@) by {
        assert("SEND_FILE"@.len() != "RECEIVE_FILE"@.len());
    }
}

/// Looking up each of three distinct keys in a list of three members finds
/// that key's value.
proof fn lemma_lookup_three(
    k1: Seq<char>,
    v1: Json,
    k2: Seq<char>,
    v2: Json,
    k3: Seq<char>,
    v3: Json,
)
    requires
        k1 != k2,
        k1 != k3,
        k2 != k3,
    ensures
        entry_lookup(seq![(k1, v1), (k2, v2), (k3, v3)], k1) == Some(v1),
        entry_lookup(seq![(k1, v1), (k2, v2), (k3, v3)], k2) == Some(v2),
        entry_lookup(seq![(k1, v1), (k2, v2), (k3, v3)], k3) == Some(v3),
{
    let e = seq![(k1, v1), (k2, v2), (k3, v3)];
    let e1 = e.drop_first();
    let e2 = e1.drop_first();
    assert(e1 == seq![(k2, v2), (k3, v3)]);
    assert(e2 == seq![(k3, v3)]);
    assert(entry_lookup(e2, k3) == Some(v3));
    assert(entry_lookup(e1, k2) == Some(v2));
    assert(entry_lookup(e1, k3) == entry_lookup(e2, k3));
}

/// The permanent password answer reports a password as set exactly when it
/// is not empty, and gives the password itself.
pub proof fn permanent_password_answer_members(password: Seq<char>)
    ensures
        json_get(permanent_password_data(password), "has_password"@) == Some(
            Json::Bool(password.len() > 0),
        ),
        json_get(permanent_password_data(password), "password"@) == Some(Json::Str(password)),
{
    reveal_strlit("has_password");
    reveal_strlit("password");
    assert("has_password"@ != "password"@) by {
        assert("has_password"@.len() != "password"@.len());
    }
    let e = seq![("has_password"@, Json::Bool(password.len() != 0)), ("password"@, Json::Str(password))];
    assert(e.drop_first() == seq![("password"@, Json::Str(password))]);
    assert(entry_lookup(e.drop_first(), "password"@) == Some(Json::Str(password)));
}

/// The recording settings answer gives the incoming switch under
/// `auto_recording_in`, the outgoing one under `auto_recording_out` and the
/// directory under `video_save_directory`.
pub proof fn auto_recording_answer_members(incoming: bool, outgoing: bool, dir: Seq<char>)
    ensures
        json_get(auto_recording_data(incoming, outgoing, dir), "auto_recording_in"@) == Some(
            Json::Bool(incoming),
        ),
        json_get(auto_recording_data(incoming, outgoing, dir), "auto_recording_out"@) == Some(
            Json::Bool(outgoing),
        ),
        json_get(auto_recording_data(incoming, outgoing, dir), "video_save_directory"@) == Some(
            Json::Str(dir),
        ),
{
    reveal_strlit("auto_recording_in");
    reveal_strlit("auto_recording_out");
    reveal_strlit("video_save_directory");
    assert("auto_recording_in"@.len() != "auto_recording_out"@.len());
    assert("auto_recording_in"@.len() != "video_save_directory"@.len());
    assert("auto_recording_out"@.len() != "video_save_directory"@.len());
    lemma_lookup_three(
        "auto_recording_in"@,
        Json::Bool(incoming),
        "auto_recording_out"@,
        Json::Bool(outgoing),
        "video_save_directory"@,
        Json::Str(dir),
    );
}

/// The verification method answer names the stored method under `method`
/// (a single-password method as stored, anything else as both passwords)
/// and gives the two switches under their own names.
pub proof fn verification_method_answer_members(stored: Seq<char>, temporary: bool, permanent: bool)
    ensures
        json_get(verification_method_data(stored, temporary, permanent), "method"@) == Some(
            Json::Str(
                if stored == "use-temporary-password"@ || stored == "use-permanent-password"@ {
                    stored
                } else {
                    "use-both-passwords"@
                },
            ),
        ),
        json_get(verification_method_data(stored, temporary, permanent), "permanent_enabled"@)
            == Some(Json::Bool(permanent)),
        json_get(verification_method_data(stored, temporary, permanent), "temporary_enabled"@)
            == Some(Json::Bool(temporary)),
{
    reveal_strlit("method");
    reveal_strlit("permanent_enabled");
    reveal_strlit("temporary_enabled");
    assert("method"@.len() != "permanent_enabled"@.len());
    assert("method"@.len() != "temporary_enabled"@.len());
    assert("permanent_enabled"@[0] != "temporary_enabled"@[0]);
    lemma_lookup_three(
        "method"@,
        Json::Str(method_name(stored)),
        "permanent_enabled"@,
        Json::Bool(permanent),
        "temporary_enabled"@,
        Json::Bool(temporary),
    );
}

/// The last step of `set_permanent_password` stores the password in this
/// process exactly when the server process could not be reached, and
/// changes nothing else.
pub proof fn permanent_password_stored_here_only_when_unreached(password: Seq<char>, reached: bool)
    ensures
        permanent_password_effects(password, reached).contains(
            EffectSpec::SetPermanentPassword(password),
        ) <==> !reached,
        permanent_password_effects(password, reached).len() <= 1,
{
    if !reached {
        assert(permanent_password_effects(password, reached)[0] == EffectSpec::SetPermanentPassword(
            password,
        ));
    }
}

/// `ping` and `heartbeat` are keep-alive probes, and so is any other text
/// shorter than ten bytes in UTF-8 that does not open a JSON object or
/// array; any other text of ten bytes or more is not.
pub proof fn keep_alive_probes(clean: Seq<char>)
    ensures
        clean == "ping"@ || clean == "heartbeat"@ ==> is_heartbeat(clean),
        encode_utf8(clean).len() < 10 && !(clean.len() > 0 && (clean[0] == '{' || clean[0] == '['))
            ==> is_heartbeat(clean),
        encode_utf8(clean).len() >= 10 && clean != "ping"@ && clean != "heartbeat"@ ==> !is_heartbeat(
            clean,
        ),
{
}

/// A payload has the string members that a handler needs exactly when each
/// of their keys names a string member.
pub proof fn string_members_are_all_checked(p: Json, keys: Seq<Seq<char>>)
    ensures
        has_string_members(p, keys) <==> forall|i: int|
            0 <= i < keys.len() ==> json_get(p, #[trigger] keys[i]) matches Some(Json::Str(_)),
{
    if has_string_members(p, keys) {
        assert forall|i: int| 0 <= i < keys.len() implies json_get(p, #[trigger] keys[i]) matches Some(
            Json::Str(_),
        ) by {
            assert(json_index(p, keys[i]) is Str);
        }
    }
}

/// The report of two runs of processes is the report of the first followed
/// by the report of the second: entries come in the order of the processes.
pub proof fn report_follows_process_order(a: Seq<ProcessEntry>, b: Seq<ProcessEntry>)
    ensures
        status_list(a + b) == status_list(a) + status_list(b),
    decreases b.len(),
{
    if b.len() == 0 {
        assert(a + b =~= a);
        assert(status_list(a) + status_list(b) =~= status_list(a));
    } else {
        let b0 = b.drop_last();
        report_follows_process_order(a, b0);
        assert((a + b).drop_last() =~= a + b0);
        assert((a + b).last() == b.last());
        assert(status_list(a) + status_list(b) =~= status_list(a) + status_list(b0) + status_entries(
            b.last(),
        ));
    }
}

/// One process is reported by its controller entry when its arguments
/// include `--connect`, followed by its controlled entry when they include
/// `--cm`, and by nothing else.
pub proof fn one_process_report(p: ProcessEntry)
    ensures
        status_list(seq![p]) == (if views(p.cmd@).contains("--connect"@) {
            seq![controller_entry_of(p)]
        } else {
            Seq::<Json>::empty()
        }) + (if views(p.cmd@).contains("--cm"@) {
            seq![controlled_entry_of(p)]
        } else {
            Seq::<Json>::empty()
        }),
{
    let one = seq![p];
    assert(one.drop_last() =~= Seq::<ProcessEntry>::empty());
    assert(one.last() == p);
    assert(status_list(one) == status_list(one.drop_last()) + status_entries(p));
    assert(status_list(one) =~= status_entries(p));
}

/// The processes to end for two runs of processes are those of the first
/// followed by those of the second.
pub proof fn kill_targets_follow_process_order(
    a: Seq<ProcessEntry>,
    b: Seq<ProcessEntry>,
    exe_name: Seq<char>,
    key_word: Seq<char>,
)
    ensures
        kill_targets(a + b, exe_name, key_word) == kill_targets(a, exe_name, key_word) + kill_targets(
            b,
            exe_name,
            key_word,
        ),
    decreases b.len(),
{
    if b.len() == 0 {
        assert(a + b =~= a);
        assert(kill_targets(a, exe_name, key_word) + kill_targets(b, exe_name, key_word)
            =~= kill_targets(a, exe_name, key_word));
    } else {
        let b0 = b.drop_last();
        kill_targets_follow_process_order(a, b0, exe_name, key_word);
        assert((a + b).drop_last() =~= a + b0);
        assert((a + b).last() == b.last());
        let ka = kill_targets(a, exe_name, key_word);
        let kb0 = kill_targets(b0, exe_name, key_word);
        if crate::process::is_kill_target(b.last(), exe_name, key_word) {
            assert(ka + kb0.push(b.last().pid) =~= (ka + kb0).push(b.last().pid));
        }
    }
}

/// `create_new_connect` takes the connection type from the payload's
/// `type` member, and the peer id, the peer's name, this device's name and
/// the temporary password from the members of the same names.
pub proof fn connect_request_takes_the_named_members(p: Json)
    ensures
        connect_fields(p)[0] == str_field(p, "type"@),
        connect_fields(p)[1] == str_field(p, "id"@),
        connect_fields(p)[2] == str_field(p, "co_name"@),
        connect_fields(p)[3] == str_field(p, "my_name"@),
        connect_fields(p)[4] == str_field(p, "temporary_password"@),
        connect_fields(p).len() == 5,
{
}

/// `set_permanent_password` sends the payload's `password` member when it
/// is a string, and answers the format error otherwise.
pub proof fn new_password_is_the_payload_member(p: Json)
    ensures
        json_get(p, "password"@) matches Some(Json::Str(s)) ==> new_password_spec(p) == Ok::<
            Seq<char>,
            Seq<char>,
        >(s),
        !(json_get(p, "password"@) matches Some(Json::Str(_))) ==> new_password_spec(p) == Err::<
            Seq<char>,
            Seq<char>,
        >(format_error_text()),
{
    if !(json_get(p, "password"@) matches Some(Json::Str(_))) {
        assert(!(json_index(p, seq!["password"@][0]) is Str));
    }
}

} // verus!

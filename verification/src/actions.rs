use vstd::prelude::*;
use crate::assoc::{assoc_lookup, assoc_index_of, lemma_assoc_index_of};
use crate::chars::{chars_of, chars_to_string};
use vstd::string::StringExecFns;

verus! {

/// One hook: an identifier and the shell command it runs, in which
/// `{serial}` stands for the device's serial.
pub struct Action {
    pub id: String,
    pub cmd: String,
}

/// The hooks that run for every device.
pub struct GlobalActions {
    pub connect: Vec<Action>,
    pub disconnect: Vec<Action>,
}

/// The hooks of one particular device.
pub struct DeviceActions {
    pub connect: Option<Vec<Action>>,
    pub disconnect: Option<Vec<Action>>,
}

/// The hook configuration: global hooks plus per-serial hooks.
pub struct ActionConfig {
    pub global: GlobalActions,
    pub devices: Vec<(String, DeviceActions)>,
}

impl Default for ActionConfig {
    /// An empty configuration: no hooks anywhere.
    fn default() -> (r: Self)
        ensures
            r.global.connect@.len() == 0,
            r.global.disconnect@.len() == 0,
            r.devices@.len() == 0,
    {
        ActionConfig {
            global: GlobalActions { connect: Vec::new(), disconnect: Vec::new() },
            devices: Vec::new(),
        }
    }
}

/// The position of the first occurrence of `pat` at or after `i`, or the
/// length of `s` when there is none.
pub open spec fn find_sub(s: Seq<char>, pat: Seq<char>, i: int) -> int
    decreases s.len() - i,
{
    if pat.len() == 0 {
        i
    } else if i < 0 || i + pat.len() > s.len() {
        s.len() as int
    } else if s.subrange(i, i + pat.len() as int) == pat {
        i
    } else {
        find_sub(s, pat, i + 1)
    }
}

/// `s` with every occurrence of `pat` replaced by `rep`, scanning left
/// to right without rescanning replacements.
pub open spec fn spec_replace(s: Seq<char>, pat: Seq<char>, rep: Seq<char>) -> Seq<char>
    decreases s.len(),
    via spec_replace_decreases
{
    if pat.len() == 0 {
        s
    } else {
        let i = find_sub(s, pat, 0);
        if i == s.len() {
            s
        } else {
            s.subrange(0, i) + rep + spec_replace(
                s.subrange(i + pat.len() as int, s.len() as int),
                pat,
                rep,
            )
        }
    }
}

#[via_fn]
proof fn spec_replace_decreases(s: Seq<char>, pat: Seq<char>, rep: Seq<char>) {
    if pat.len() > 0 {
        lemma_find_sub(s, pat, 0);
    }
}

/// `find_sub` finds the first occurrence, or reports that there is none.
proof fn lemma_find_sub(s: Seq<char>, pat: Seq<char>, i: int)
    requires
        0 <= i <= s.len(),
    ensures
        ({
            let r = find_sub(s, pat, i);
            &&& i <= r <= s.len()
            &&& r < s.len() ==> r + pat.len() <= s.len() && s.subrange(r, r + pat.len() as int)
                == pat
            &&& forall|j: int|
                i <= j < r && j + pat.len() <= s.len() ==> #[trigger] s.subrange(
                    j,
                    j + pat.len() as int,
                ) != pat
        }),
    decreases s.len() - i,
{
    if pat.len() > 0 && i + pat.len() <= s.len() && s.subrange(i, i + pat.len() as int)
        != pat {
        lemma_find_sub(s, pat, i + 1);
    } else if pat.len() > 0 && i + pat.len() > s.len() {
        assert forall|j: int|
            i <= j < s.len() && j + pat.len() <= s.len() implies #[trigger] s.subrange(
            j,
            j + pat.len() as int,
        ) != pat by {
            assert(j + pat.len() > s.len());
        }
    }
}

/// Unfolds one step of `spec_replace`: a match at the front emits the
/// replacement, anything else emits the first character.
proof fn lemma_replace_unfold(s: Seq<char>, pat: Seq<char>, rep: Seq<char>)
    requires
        pat.len() > 0,
        s.len() > 0,
    ensures
        (s.len() >= pat.len() && s.subrange(0, pat.len() as int) == pat) ==> spec_replace(
            s,
            pat,
            rep,
        ) == rep + spec_replace(s.subrange(pat.len() as int, s.len() as int), pat, rep),
        !(s.len() >= pat.len() && s.subrange(0, pat.len() as int) == pat) ==> spec_replace(
            s,
            pat,
            rep,
        ) == seq![s[0]] + spec_replace(s.drop_first(), pat, rep),
{
    let f = find_sub(s, pat, 0);
    lemma_find_sub(s, pat, 0);
    if s.len() >= pat.len() && s.subrange(0, pat.len() as int) == pat {
        assert(f == 0);
        assert(s.subrange(0, 0) =~= Seq::<char>::empty());
        assert(spec_replace(s, pat, rep) =~= rep + spec_replace(
            s.subrange(pat.len() as int, s.len() as int),
            pat,
            rep,
        ));
    } else {
        assert(f >= 1) by {
            if f == 0 {
                assert(s.subrange(0, pat.len() as int) == pat);
            }
        }
        let t = s.drop_first();
        let ft = find_sub(t, pat, 0);
        lemma_find_sub(t, pat, 0);
        assert forall|j: int|
            0 <= j && j + pat.len() <= t.len() implies #[trigger] t.subrange(
            j,
            j + pat.len() as int,
        ) =~= s.subrange(j + 1, j + 1 + pat.len() as int) by {
        }
        if f == s.len() {
            // no occurrence anywhere: none in the tail either
            if ft < t.len() {
                assert(t.subrange(ft, ft + pat.len() as int) == pat);
                assert(s.subrange(ft + 1, ft + 1 + pat.len() as int) == pat);
                assert(false);
            }
            assert(spec_replace(s, pat, rep) == s);
            assert(spec_replace(t, pat, rep) == t);
            assert(seq![s[0]] + t =~= s);
        } else {
            // first occurrence at f >= 1: the tail's first is at f - 1
            if ft < f - 1 {
                assert(t.subrange(ft, ft + pat.len() as int) == pat);
                assert(s.subrange(ft + 1, ft + 1 + pat.len() as int) == pat);
                assert(false);
            }
            if ft > f - 1 {
                assert(t.subrange(f - 1, f - 1 + pat.len() as int) =~= s.subrange(
                    f,
                    f + pat.len() as int,
                ));
                assert(false);
            }
            assert(ft == f - 1);
            assert(spec_replace(t, pat, rep) == t.subrange(0, ft) + rep + spec_replace(
                t.subrange(ft + pat.len() as int, t.len() as int),
                pat,
                rep,
            ));
            assert(t.subrange(ft + pat.len() as int, t.len() as int) =~= s.subrange(
                f + pat.len() as int,
                s.len() as int,
            ));
            assert(seq![s[0]] + (t.subrange(0, ft) + rep + spec_replace(
                s.subrange(f + pat.len() as int, s.len() as int),
                pat,
                rep,
            )) =~= s.subrange(0, f) + rep + spec_replace(
                s.subrange(f + pat.len() as int, s.len() as int),
                pat,
                rep,
            ));
        }
    }
}

/// Replaces every `{serial}` in a hook command by the device's serial.
pub fn substitute_serial(cmd: &str, serial: &str) -> (r: String)
    ensures
        r@ == spec_replace(cmd@, "{serial}"@, serial@),
{
    let v = chars_of(cmd);
    let pat = chars_of("{serial}");
    let rep = chars_of(serial);
    proof {
        reveal_strlit("{serial}");
        assert(pat@.len() == 8);
    }
    let mut out: Vec<char> = Vec::new();
    let mut i: usize = 0;
    proof {
        assert(v@.subrange(0, v@.len() as int) =~= v@);
        assert(Seq::<char>::empty() + spec_replace(v@, pat@, rep@) =~= spec_replace(
            v@,
            pat@,
            rep@,
        ));
    }
    while i < v.len()
        invariant
            0 <= i <= v@.len(),
            v@ == cmd@,
            pat@ == "{serial}"@,
            rep@ == serial@,
            pat@.len() == 8,
            spec_replace(cmd@, "{serial}"@, serial@) == out@ + spec_replace(
                v@.subrange(i as int, v@.len() as int),
                pat@,
                rep@,
            ),
        decreases v@.len() - i,
    {
        let ghost rest = v@.subrange(i as int, v@.len() as int);
        let mut matched = false;
        if v.len() - i >= 8 {
            let window = crate::chars::subvec(&v, i, i + 8);
            if crate::chars::chars_eq(&window, &pat) {
                matched = true;
            }
        }
        proof {
            lemma_replace_unfold(rest, pat@, rep@);
        }
        if matched {
            let mut rc = crate::chars::subvec(&rep, 0, rep.len());
            proof {
                assert(rest.subrange(0, 8) =~= v@.subrange(i as int, i as int + 8));
                assert(rc@ =~= rep@);
            }
            out.append(&mut rc);
            proof {
                assert(rest.subrange(8, rest.len() as int) =~= v@.subrange(
                    i as int + 8,
                    v@.len() as int,
                ));
            }
            i = i + 8;
        } else {
            proof {
                if rest.len() >= 8 && rest.subrange(0, 8) == pat@ {
                    assert(rest.subrange(0, 8) =~= v@.subrange(i as int, i as int + 8));
                }
                assert(rest.drop_first() =~= v@.subrange(i as int + 1, v@.len() as int));
                assert(rest[0] == v@[i as int]);
            }
            out.push(v[i]);
            i = i + 1;
        }
    }
    proof {
        assert(v@.subrange(v@.len() as int, v@.len() as int) =~= Seq::<char>::empty());
        assert(spec_replace(Seq::<char>::empty(), pat@, rep@) == Seq::<char>::empty());
        assert(out@ =~= out@ + Seq::<char>::empty());
    }
    chars_to_string(&out)
}

/// The hook commands owed for one event, in order: the global hooks for
/// that event, then the chosen device's own, each with its serial
/// substituted.
pub open spec fn spec_action_commands(actions: Seq<Action>, serial: Seq<char>) -> Seq<Seq<char>>
    decreases actions.len(),
{
    if actions.len() == 0 {
        Seq::empty()
    } else {
        spec_action_commands(actions.drop_last(), serial) + seq![
            spec_replace(actions.last().cmd@, "{serial}"@, serial),
        ]
    }
}

/// Substitutes the serial into each action's command, in order.
fn commands_of(actions: &Vec<Action>, serial: &str) -> (r: Vec<String>)
    ensures
        r@.map_values(|s: String| s@) == spec_action_commands(actions@, serial@),
{
    let mut r: Vec<String> = Vec::new();
    let mut i: usize = 0;
    while i < actions.len()
        invariant
            0 <= i <= actions@.len(),
            r@.map_values(|s: String| s@) == spec_action_commands(
                actions@.take(i as int),
                serial@,
            ),
        decreases actions@.len() - i,
    {
        proof {
            assert(actions@.take(i as int + 1).drop_last() =~= actions@.take(i as int));
            assert(actions@.take(i as int + 1).last() == actions@[i as int]);
        }
        r.push(substitute_serial(actions[i].cmd.as_str(), serial));
        proof {
            assert(r@.map_values(|s: String| s@) =~= spec_action_commands(
                actions@.take(i as int + 1),
                serial@,
            ));
        }
        i = i + 1;
    }
    proof {
        assert(actions@.take(actions@.len() as int) =~= actions@);
    }
    r
}

/// The per-device hook lists, viewed as an association sequence.
pub open spec fn devices_view(devices: Seq<(String, DeviceActions)>) -> Seq<
    (Seq<char>, DeviceActions),
> {
    devices.map_values(|e: (String, DeviceActions)| (e.0@, e.1))
}

/// Collects the shell commands the hooks owe for `event` (`connect` or
/// `disconnect`; anything else is rejected) on the device `serial`: the
/// global hooks first, then the device's own, each command with its
/// `{serial}` substituted.
pub fn collect_event_commands(config: &ActionConfig, serial: &str, event: &str) -> (r: Result<
    Vec<String>,
    String,
>)
    ensures
        !(event@ == "connect"@ || event@ == "disconnect"@) <==> r is Err,
        r matches Ok(cmds) ==> ({
            let global = if event@ == "connect"@ {
                config.global.connect@
            } else {
                config.global.disconnect@
            };
            let own = match assoc_lookup(devices_view(config.devices@), serial@) {
                Some(device_actions) => {
                    let list = if event@ == "connect"@ {
                        device_actions.connect
                    } else {
                        device_actions.disconnect
                    };
                    match list {
                        Some(actions) => actions@,
                        None => Seq::<Action>::empty(),
                    }
                },
                None => Seq::<Action>::empty(),
            };
            cmds@.map_values(|s: String| s@) == spec_action_commands(global, serial@)
                + spec_action_commands(own, serial@)
        }),
{
    let is_connect = {
        let e = chars_of(event);
        let c = chars_of("connect");
        crate::chars::chars_eq(&e, &c)
    };
    let is_disconnect = {
        let e = chars_of(event);
        let c = chars_of("disconnect");
        crate::chars::chars_eq(&e, &c)
    };
    if !is_connect && !is_disconnect {
        let mut m = "Unknown event type: ".to_owned();
        m.append(event);
        return Err(m);
    }
    let global_list = if is_connect {
        &config.global.connect
    } else {
        &config.global.disconnect
    };
    let mut cmds = commands_of(global_list, serial);
    let mut j: usize = 0;
    let mut found: Option<usize> = None;
    while j < config.devices.len()
        invariant
            0 <= j <= config.devices@.len(),
            devices_view(config.devices@).len() == config.devices@.len(),
            match found {
                Some(k) => k < j && devices_view(config.devices@)[k as int].0 == serial@
                    && assoc_index_of(devices_view(config.devices@), serial@, 0) == k,
                None => assoc_index_of(devices_view(config.devices@), serial@, 0)
                    == assoc_index_of(devices_view(config.devices@), serial@, j as int),
            },
        decreases config.devices@.len() - j,
    {
        if found.is_none() {
            let e = chars_of(config.devices[j].0.as_str());
            let sc = chars_of(serial);
            proof {
                assert(devices_view(config.devices@)[j as int].0 == config.devices@[
                    j as int].0@);
            }
            if crate::chars::chars_eq(&e, &sc) {
                found = Some(j);
            }
        }
        j = j + 1;
    }
    let own_cmds: Vec<String> = match found {
        Some(k) => {
            let device_actions = &config.devices[k].1;
            let list = if is_connect {
                &device_actions.connect
            } else {
                &device_actions.disconnect
            };
            match list {
                Some(actions) => commands_of(actions, serial),
                None => Vec::new(),
            }
        },
        None => {
            proof {
                lemma_assoc_index_of(devices_view(config.devices@), serial@, 0);
            }
            Vec::new()
        },
    };
    let mut own_m = own_cmds;
    let ghost cmds_before = cmds@;
    let ghost own_view = own_m@;
    proof {
        assert(spec_action_commands(Seq::<Action>::empty(), serial@)
            =~= Seq::<Seq<char>>::empty());
    }
    cmds.append(&mut own_m);
    proof {
        assert(cmds@.map_values(|s: String| s@) =~= cmds_before.map_values(|s: String| s@)
            + own_view.map_values(|s: String| s@));
    }
    Ok(cmds)
}

} // verus!

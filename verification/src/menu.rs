use vstd::prelude::*;

verus! {

use vstd::string::StringExecFns;
use crate::model::{
    FeedbackSeverity, KillFeedback, KillTarget, MenuAction, MenuEntry, ProcessInfo, StopRoute,
};
use crate::notify::{project_lookup, project_of};
use crate::text::{
    chars_of, chars_eq_str, dec_chars, has_prefix, int_chars, push_char, push_i64, push_u64,
    spec_parse_i32, spec_parse_u16, parse_i32_range, parse_u16_range, split_chars, split_on,
    strip_prefix_chars, char_is_alphanumeric, spec_alphanumeric,
};

// ---------------------------------------------------------------------------
// Menu identifiers.
// ---------------------------------------------------------------------------

/// The menu id of the entry that kills one process: its pid and port,
/// separated by underscores, behind a fixed prefix.
pub open spec fn spec_process_menu_id(pid: int, port: int) -> Seq<char> {
    "process_"@ + int_chars(pid) + seq!['_'] + dec_chars(port as nat)
}

pub fn process_menu_id(pid: i32, port: u16) -> (r: String)
    ensures
        r@ == spec_process_menu_id(pid as int, port as int),
{
    let mut s = String::new();
    s.append("process_");
    push_i64(&mut s, pid as i64);
    push_char(&mut s, '_');
    push_u64(&mut s, port as u64);
    proof {
        assert(s@ =~= spec_process_menu_id(pid as int, port as int));
    }
    s
}

// ---------------------------------------------------------------------------
// Identifier sanitizing.
// ---------------------------------------------------------------------------

/// Characters an embedded container or service name may keep.
pub open spec fn ident_pred() -> spec_fn(char) -> bool {
    |c: char| spec_alphanumeric(c) || c == '-' || c == '_' || c == '.'
}

/// `s` with everything but alphanumerics, '-', '_' and '.' removed.
pub open spec fn spec_sanitize(s: Seq<char>) -> Seq<char> {
    s.filter(ident_pred())
}

/// Strips a container or service name pulled out of a menu id down to safe
/// characters.
pub fn sanitize_identifier(s: &str) -> (r: String)
    ensures
        r@ == spec_sanitize(s@),
{
    let v = chars_of(s);
    sanitize_chars(&v)
}

fn sanitize_chars(v: &Vec<char>) -> (r: String)
    ensures
        r@ == spec_sanitize(v@),
{
    let mut out = String::new();
    let mut i: usize = 0;
    proof {
        reveal(Seq::filter);
        assert(v@.take(0).filter(ident_pred()) =~= Seq::<char>::empty());
    }
    while i < v.len()
        invariant
            i <= v@.len(),
            out@ == v@.take(i as int).filter(ident_pred()),
        decreases v@.len() - i,
    {
        let c = v[i];
        let keep = char_is_alphanumeric(c) || c == '-' || c == '_' || c == '.';
        proof {
            assert(keep == ident_pred()(v@[i as int]));
        }
        if keep {
            push_char(&mut out, c);
        }
        proof {
            reveal(Seq::filter);
            assert(v@.take(i + 1 as int).drop_last() =~= v@.take(i as int));
            assert(v@.take(i + 1 as int).last() == v@[i as int]);
        }
        i = i + 1;
    }
    proof {
        assert(v@.take(v@.len() as int) =~= v@);
    }
    out
}

// ---------------------------------------------------------------------------
// Parsing a menu id back into the action it stands for.
// ---------------------------------------------------------------------------

/// The pid encoded in the tail of a process menu id: the part before the
/// first underscore as a pid, the part after it as a port, both numeric.
pub open spec fn spec_process_target(rest: Seq<char>) -> Option<i32> {
    let parts = split_on(rest, '_');
    if parts.len() >= 2 {
        match (spec_parse_i32(parts[0]), spec_parse_u16(parts[1])) {
            (Some(pid), Some(_port)) => Some(pid),
            _ => None,
        }
    } else {
        None
    }
}

/// Maps a menu id to its action: the four fixed ids, a docker or brew stop
/// with the sanitized target name, or a process kill with the encoded pid.
pub fn parse_menu_action(raw: &str) -> (r: Option<MenuAction>)
    ensures
        match r {
            Option::None => {
                &&& raw@ != "kill_all"@
                &&& raw@ != "quit"@
                &&& raw@ != "edit_config"@
                &&& raw@ != "snooze_30m"@
                &&& !has_prefix(raw@, "docker_stop_"@)
                &&& !has_prefix(raw@, "brew_stop_"@)
                &&& (has_prefix(raw@, "process_"@) ==> spec_process_target(
                    raw@.skip("process_"@.len() as int),
                ) is None)
            },
            Option::Some(a) => match a {
                MenuAction::KillAll => raw@ == "kill_all"@,
                MenuAction::Quit => raw@ == "quit"@,
                MenuAction::EditConfig => raw@ == "edit_config"@,
                MenuAction::Snooze30m => raw@ == "snooze_30m"@,
                MenuAction::DockerStop { container } => has_prefix(raw@, "docker_stop_"@)
                    && container@ == spec_sanitize(raw@.skip("docker_stop_"@.len() as int)),
                MenuAction::BrewStop { service } => has_prefix(raw@, "brew_stop_"@) && service@
                    == spec_sanitize(raw@.skip("brew_stop_"@.len() as int)),
                MenuAction::KillPid { pid } => has_prefix(raw@, "process_"@) && spec_process_target(
                    raw@.skip("process_"@.len() as int),
                ) == Some(pid),
            },
        },
{
    let cs = chars_of(raw);
    if chars_eq_str(&cs, "kill_all") {
        return Some(MenuAction::KillAll);
    }
    if chars_eq_str(&cs, "quit") {
        return Some(MenuAction::Quit);
    }
    if chars_eq_str(&cs, "edit_config") {
        return Some(MenuAction::EditConfig);
    }
    if chars_eq_str(&cs, "snooze_30m") {
        return Some(MenuAction::Snooze30m);
    }
    match strip_prefix_chars(&cs, "docker_stop_") {
        Some(rest) => {
            return Some(MenuAction::DockerStop { container: sanitize_chars(&rest) });
        },
        None => {},
    }
    match strip_prefix_chars(&cs, "brew_stop_") {
        Some(rest) => {
            return Some(MenuAction::BrewStop { service: sanitize_chars(&rest) });
        },
        None => {},
    }
    match strip_prefix_chars(&cs, "process_") {
        Some(rest) => {
            let parts = split_chars(&rest, '_');
            if parts.len() < 2 {
                return None;
            }
            let head = &parts[0];
            proof {
                assert(head@.subrange(0, head@.len() as int) =~= head@);
            }
            let pid = match parse_i32_range(head, 0, head.len()) {
                Some(p) => p,
                None => {
                    return None;
                },
            };
            let second = &parts[1];
            proof {
                assert(second@.subrange(0, second@.len() as int) =~= second@);
            }
            match parse_u16_range(second, 0, second.len()) {
                Some(_port) => Some(MenuAction::KillPid { pid }),
                None => None,
            }
        },
        None => None,
    }
}

// ---------------------------------------------------------------------------
// Display labels.
// ---------------------------------------------------------------------------

/// The ports of a label, comma-separated.
pub open spec fn ports_list_chars(ports: Seq<u16>) -> Seq<char>
    decreases ports.len(),
{
    if ports.len() == 0 {
        Seq::<char>::empty()
    } else if ports.len() == 1 {
        dec_chars(ports[0] as nat)
    } else {
        ports_list_chars(ports.drop_last()) + ", "@ + dec_chars(ports.last() as nat)
    }
}

/// An empty command is shown as "Unknown".
pub open spec fn spec_base_label(cmd: Seq<char>) -> Seq<char> {
    if cmd.len() == 0 {
        "Unknown"@
    } else {
        cmd
    }
}

pub open spec fn spec_label_head(cmd: Seq<char>, ports: Seq<u16>) -> Seq<char> {
    spec_base_label(cmd) + " (port"@ + (if ports.len() > 1 {
        "s"@
    } else {
        Seq::<char>::empty()
    }) + " "@
}

/// The command with its ports in parentheses: `node (port 3000)`,
/// `python (ports 8000, 8001)`; just the command when there are no ports.
pub open spec fn spec_command_label(cmd: Seq<char>, ports: Seq<u16>) -> Seq<char> {
    if ports.len() == 0 {
        spec_base_label(cmd)
    } else {
        spec_label_head(cmd, ports) + ports_list_chars(ports) + ")"@
    }
}

pub fn format_command_label(command: &str, ports: &[u16]) -> (r: String)
    ensures
        r@ == spec_command_label(command@, ports@),
{
    let mut label = if command.is_empty() {
        let mut u = String::new();
        u.append("Unknown");
        u
    } else {
        command.to_owned()
    };
    proof {
        assert(label@ =~= spec_base_label(command@));
    }
    if ports.len() == 0 {
        return label;
    }
    label.append(" (port");
    if ports.len() > 1 {
        label.append("s");
    }
    label.append(" ");
    proof {
        assert(label@ =~= spec_label_head(command@, ports@));
        assert(label@ =~= spec_label_head(command@, ports@) + ports_list_chars(ports@.take(0)));
    }
    let mut i: usize = 0;
    while i < ports.len()
        invariant
            i <= ports@.len(),
            1 <= ports@.len(),
            label@ == spec_label_head(command@, ports@) + ports_list_chars(
                ports@.take(i as int),
            ),
        decreases ports@.len() - i,
    {
        if i > 0 {
            label.append(", ");
        }
        let p: u16 = *vstd::slice::slice_index_get(ports, i);
        push_u64(&mut label, p as u64);
        proof {
            assert(ports@.take(i + 1 as int).drop_last() =~= ports@.take(i as int));
            assert(ports@.take(i + 1 as int).last() == ports@[i as int]);
            if i == 0 {
                assert(ports_list_chars(ports@.take(1)) == dec_chars(ports@[0] as nat));
                assert(label@ =~= spec_label_head(command@, ports@) + ports_list_chars(
                    ports@.take(1),
                ));
            } else {
                assert(label@ =~= spec_label_head(command@, ports@) + ports_list_chars(
                    ports@.take(i + 1 as int),
                ));
            }
        }
        i = i + 1;
    }
    label.append(")");
    proof {
        assert(ports@.take(ports@.len() as int) =~= ports@);
        assert(label@ =~= spec_command_label(command@, ports@));
    }
    label
}

// ---------------------------------------------------------------------------
// The tooltip.
// ---------------------------------------------------------------------------

/// At most this many listeners are listed in the tooltip.
pub const MAX_TOOLTIP_ENTRIES: usize = 5;

/// One listener's line in the tooltip.
pub open spec fn tooltip_process_line(p: ProcessInfo) -> Seq<char> {
    "Port "@ + dec_chars(p.port as nat) + " → "@ + p.command@ + " (PID "@ + int_chars(p.pid as int)
        + ")"@
}

/// The first `k` listeners' lines, each preceded by a line break.
pub open spec fn entry_lines(ps: Seq<ProcessInfo>, k: int) -> Seq<char>
    decreases k,
{
    if k <= 0 {
        Seq::<char>::empty()
    } else {
        entry_lines(ps, k - 1) + seq!['\n'] + tooltip_process_line(ps[k - 1])
    }
}

pub open spec fn severity_prefix(s: FeedbackSeverity) -> Seq<char> {
    match s {
        FeedbackSeverity::Info => Seq::<char>::empty(),
        FeedbackSeverity::Warning => "⚠️ "@,
        FeedbackSeverity::Error => "⛔ "@,
    }
}

/// The tooltip: a headline, the first few listeners, a count of the rest,
/// and the feedback about the last action when there is any.
pub open spec fn spec_tooltip(ps: Seq<ProcessInfo>, feedback: Option<KillFeedback>) -> Seq<char> {
    let shown: int = if ps.len() > MAX_TOOLTIP_ENTRIES {
        MAX_TOOLTIP_ENTRIES as int
    } else {
        ps.len() as int
    };
    let head = if ps.len() == 0 {
        "No dev port listeners detected."@
    } else {
        "Active listeners: "@ + dec_chars(ps.len() as nat) + entry_lines(ps, shown) + (if ps.len()
            > MAX_TOOLTIP_ENTRIES {
            "\n…and "@ + dec_chars((ps.len() - MAX_TOOLTIP_ENTRIES) as nat) + " more"@
        } else {
            Seq::<char>::empty()
        })
    };
    head + (match feedback {
        Option::Some(f) => "\nLast action: "@ + severity_prefix(f.severity) + f.message@,
        Option::None => Seq::<char>::empty(),
    })
}

#[verifier::rlimit(60)]
pub fn build_tooltip(processes: &[ProcessInfo], feedback: Option<&KillFeedback>) -> (r: String)
    ensures
        r@ == spec_tooltip(
            processes@,
            match feedback {
                Option::Some(f) => Option::Some(*f),
                Option::None => Option::None,
            },
        ),
{
    let mut s = String::new();
    if processes.len() == 0 {
        s.append("No dev port listeners detected.");
    } else {
        s.append("Active listeners: ");
        push_u64(&mut s, processes.len() as u64);
        let shown: usize = if processes.len() > MAX_TOOLTIP_ENTRIES {
            MAX_TOOLTIP_ENTRIES
        } else {
            processes.len()
        };
        proof {
            assert(s@ =~= Seq::<char>::empty() + "Active listeners: "@ + dec_chars(
                processes@.len() as nat,
            ) + entry_lines(processes@, 0));
        }
        let mut i: usize = 0;
        while i < shown
            invariant
                i <= shown <= processes@.len(),
                s@ == Seq::<char>::empty() + "Active listeners: "@ + dec_chars(
                    processes@.len() as nat,
                ) + entry_lines(processes@, i as int),
            decreases shown - i,
        {
            let p = vstd::slice::slice_index_get(processes, i);
            push_char(&mut s, '\n');
            s.append("Port ");
            push_u64(&mut s, p.port as u64);
            s.append(" → ");
            s.append(p.command.as_str());
            s.append(" (PID ");
            push_i64(&mut s, p.pid as i64);
            s.append(")");
            proof {
                assert(s@ =~= Seq::<char>::empty() + "Active listeners: "@ + dec_chars(
                    processes@.len() as nat,
                ) + entry_lines(processes@, i + 1 as int));
            }
            i = i + 1;
        }
        if processes.len() > MAX_TOOLTIP_ENTRIES {
            s.append("\n…and ");
            push_u64(&mut s, (processes.len() - MAX_TOOLTIP_ENTRIES) as u64);
            s.append(" more");
        }
    }
    let ghost head_done = s@;
    match feedback {
        Some(f) => {
            s.append("\nLast action: ");
            match f.severity {
                FeedbackSeverity::Info => {},
                FeedbackSeverity::Warning => {
                    s.append("⚠️ ");
                },
                FeedbackSeverity::Error => {
                    s.append("⛔ ");
                },
            }
            s.append(f.message.as_str());
            proof {
                assert(s@ =~= head_done + ("\nLast action: "@ + severity_prefix(f.severity)
                    + f.message@));
            }
        },
        None => {},
    }
    proof {
        assert(s@ =~= spec_tooltip(
            processes@,
            match feedback {
                Option::Some(f) => Option::Some(*f),
                Option::None => Option::None,
            },
        ));
    }
    s
}

// ---------------------------------------------------------------------------
// Collecting the targets of a "kill all" request.
// ---------------------------------------------------------------------------

/// One accumulated target: a pid, the first non-empty command seen for it,
/// and its ports in order of first appearance.
pub open spec fn updated_group(
    g: (i32, Seq<char>, Seq<u16>),
    cmd: Seq<char>,
    port: u16,
) -> (i32, Seq<char>, Seq<u16>) {
    (
        g.0,
        if g.1.len() == 0 {
            cmd
        } else {
            g.1
        },
        if g.2.contains(port) {
            g.2
        } else {
            g.2.push(port)
        },
    )
}

/// Files one process into the accumulator, which is kept ordered by pid.
pub open spec fn upsert_group(
    acc: Seq<(i32, Seq<char>, Seq<u16>)>,
    pid: i32,
    cmd: Seq<char>,
    port: u16,
) -> Seq<(i32, Seq<char>, Seq<u16>)>
    decreases acc.len(),
{
    if acc.len() == 0 {
        seq![(pid, cmd, seq![port])]
    } else if acc[0].0 == pid {
        seq![updated_group(acc[0], cmd, port)] + acc.skip(1)
    } else if pid < acc[0].0 {
        seq![(pid, cmd, seq![port])] + acc
    } else {
        seq![acc[0]] + upsert_group(acc.skip(1), pid, cmd, port)
    }
}

/// The processes grouped by pid, ordered by pid.
pub open spec fn groups_of(ps: Seq<ProcessInfo>) -> Seq<(i32, Seq<char>, Seq<u16>)>
    decreases ps.len(),
{
    if ps.len() == 0 {
        Seq::<(i32, Seq<char>, Seq<u16>)>::empty()
    } else {
        upsert_group(
            groups_of(ps.drop_last()),
            ps.last().pid,
            ps.last().command@,
            ps.last().port,
        )
    }
}

proof fn lemma_upsert_skip(
    acc: Seq<(i32, Seq<char>, Seq<u16>)>,
    pid: i32,
    cmd: Seq<char>,
    port: u16,
    i: int,
)
    requires
        0 <= i <= acc.len(),
        forall|j: int| 0 <= j < i ==> (#[trigger] acc[j]).0 < pid,
    ensures
        upsert_group(acc, pid, cmd, port) == acc.take(i) + upsert_group(
            acc.skip(i),
            pid,
            cmd,
            port,
        ),
    decreases i,
{
    if i == 0 {
        assert(acc.skip(0) =~= acc);
        assert(acc.take(0) + upsert_group(acc, pid, cmd, port) =~= upsert_group(
            acc,
            pid,
            cmd,
            port,
        ));
    } else {
        lemma_upsert_skip(acc.skip(1), pid, cmd, port, i - 1);
        assert(acc.skip(1).take(i - 1) =~= acc.take(i).skip(1));
        assert(acc.skip(1).skip(i - 1) =~= acc.skip(i));
        assert(seq![acc[0]] + (acc.skip(1).take(i - 1) + upsert_group(
            acc.skip(i),
            pid,
            cmd,
            port,
        )) =~= acc.take(i) + upsert_group(acc.skip(i), pid, cmd, port));
    }
}

/// The view of the executable accumulator.
pub open spec fn group_models(v: Seq<(i32, String, Vec<u16>)>) -> Seq<(i32, Seq<char>, Seq<u16>)> {
    v.map(|j: int, g: (i32, String, Vec<u16>)| (g.0, g.1@, g.2@))
}

fn vec_contains_u16(v: &Vec<u16>, x: u16) -> (r: bool)
    ensures
        r == v@.contains(x),
{
    let mut i: usize = 0;
    while i < v.len()
        invariant
            i <= v@.len(),
            forall|j: int| 0 <= j < i ==> v@[j] != x,
        decreases v@.len() - i,
    {
        if v[i] == x {
            return true;
        }
        i = i + 1;
    }
    false
}

fn upsert_exec(groups: &mut Vec<(i32, String, Vec<u16>)>, pid: i32, command: &str, port: u16)
    ensures
        group_models(final(groups)@) == upsert_group(group_models(old(groups)@), pid, command@, port),
{
    let ghost acc = group_models(old(groups)@);
    let mut idx: usize = 0;
    while idx < groups.len() && groups[idx].0 < pid
        invariant
            idx <= groups@.len(),
            groups@ == old(groups)@,
            forall|j: int| 0 <= j < idx ==> (#[trigger] groups@[j]).0 < pid,
        decreases groups@.len() - idx,
    {
        idx = idx + 1;
    }
    proof {
        lemma_upsert_skip(acc, pid, command@, port, idx as int);
    }
    if idx < groups.len() && groups[idx].0 == pid {
        let mut g = groups.remove(idx);
        if !vec_contains_u16(&g.2, port) {
            g.2.push(port);
        }
        if g.1.as_str().is_empty() {
            g.1 = command.to_owned();
        }
        groups.insert(idx, g);
        proof {
            assert(acc.skip(idx as int)[0] == acc[idx as int]);
            assert(upsert_group(acc.skip(idx as int), pid, command@, port) =~= seq![
                updated_group(acc[idx as int], command@, port),
            ] + acc.skip(idx as int).skip(1));
            assert(group_models(groups@) =~= acc.take(idx as int) + (seq![
                updated_group(acc[idx as int], command@, port),
            ] + acc.skip(idx as int).skip(1)));
        }
    } else {
        let mut first_ports: Vec<u16> = Vec::new();
        first_ports.push(port);
        groups.insert(idx, (pid, command.to_owned(), first_ports));
        proof {
            assert(seq![port] =~= first_ports@);
            if idx < old(groups)@.len() {
                assert(acc.skip(idx as int)[0] == acc[idx as int]);
                assert(pid < acc[idx as int].0);
                assert(upsert_group(acc.skip(idx as int), pid, command@, port) == seq![
                    (pid, command@, seq![port]),
                ] + acc.skip(idx as int));
            } else {
                assert(acc.skip(idx as int) =~= Seq::<(i32, Seq<char>, Seq<u16>)>::empty());
            }
            assert(group_models(groups@) =~= acc.take(idx as int) + upsert_group(
                acc.skip(idx as int),
                pid,
                command@,
                port,
            ));
        }
    }
}

// ---------------------------------------------------------------------------
// Sorting the ports of one target.
// ---------------------------------------------------------------------------

pub open spec fn sorted_insert(s: Seq<u16>, x: u16) -> Seq<u16>
    decreases s.len(),
{
    if s.len() == 0 {
        seq![x]
    } else if x < s[0] {
        seq![x] + s
    } else {
        seq![s[0]] + sorted_insert(s.skip(1), x)
    }
}

/// The ports in ascending order, by insertion sort.
pub open spec fn sort_ports(s: Seq<u16>) -> Seq<u16>
    decreases s.len(),
{
    if s.len() == 0 {
        Seq::<u16>::empty()
    } else {
        sorted_insert(sort_ports(s.drop_last()), s.last())
    }
}

proof fn lemma_sorted_insert_skip(s: Seq<u16>, x: u16, i: int)
    requires
        0 <= i <= s.len(),
        forall|j: int| 0 <= j < i ==> !(x < #[trigger] s[j]),
    ensures
        sorted_insert(s, x) == s.take(i) + sorted_insert(s.skip(i), x),
    decreases i,
{
    if i == 0 {
        assert(s.skip(0) =~= s);
        assert(s.take(0) + sorted_insert(s, x) =~= sorted_insert(s, x));
    } else {
        lemma_sorted_insert_skip(s.skip(1), x, i - 1);
        assert(s.skip(1).take(i - 1) =~= s.take(i).skip(1));
        assert(s.skip(1).skip(i - 1) =~= s.skip(i));
        assert(seq![s[0]] + (s.skip(1).take(i - 1) + sorted_insert(s.skip(i), x)) =~= s.take(i)
            + sorted_insert(s.skip(i), x));
    }
}

fn sort_ports_exec(v: &Vec<u16>) -> (r: Vec<u16>)
    ensures
        r@ == sort_ports(v@),
{
    let mut out: Vec<u16> = Vec::new();
    let mut i: usize = 0;
    while i < v.len()
        invariant
            i <= v@.len(),
            out@ == sort_ports(v@.take(i as int)),
        decreases v@.len() - i,
    {
        let x = v[i];
        let ghost before = out@;
        let mut idx: usize = 0;
        while idx < out.len() && out[idx] <= x
            invariant
                idx <= out@.len(),
                out@ == before,
                forall|j: int| 0 <= j < idx ==> !(x < #[trigger] out@[j]),
            decreases out@.len() - idx,
        {
            idx = idx + 1;
        }
        out.insert(idx, x);
        proof {
            lemma_sorted_insert_skip(before, x, idx as int);
            if idx < before.len() {
                assert(before.skip(idx as int)[0] == before[idx as int]);
                assert(sorted_insert(before.skip(idx as int), x) == seq![x] + before.skip(
                    idx as int,
                ));
            } else {
                assert(before.skip(idx as int) =~= Seq::<u16>::empty());
            }
            assert(out@ =~= before.take(idx as int) + sorted_insert(before.skip(idx as int), x));
            assert(v@.take(i + 1 as int).drop_last() =~= v@.take(i as int));
            assert(v@.take(i + 1 as int).last() == v@[i as int]);
        }
        i = i + 1;
    }
    proof {
        assert(v@.take(v@.len() as int) =~= v@);
    }
    out
}

/// Gathers one kill target per distinct pid, ordered by pid: each carries
/// the first non-empty command seen for that pid and a label listing its
/// distinct ports in ascending order.
pub fn collect_targets_for_all(processes: &[ProcessInfo]) -> (r: Vec<KillTarget>)
    ensures
        r@.len() == groups_of(processes@).len(),
        forall|j: int|
            0 <= j < r@.len() ==> {
                let g = groups_of(processes@)[j];
                (#[trigger] r@[j]).pid == g.0 && r@[j].label@ == spec_command_label(
                    g.1,
                    sort_ports(g.2),
                )
            },
{
    let mut groups: Vec<(i32, String, Vec<u16>)> = Vec::new();
    let mut i: usize = 0;
    proof {
        assert(group_models(groups@) =~= groups_of(processes@.take(0)));
    }
    while i < processes.len()
        invariant
            i <= processes@.len(),
            group_models(groups@) == groups_of(processes@.take(i as int)),
        decreases processes@.len() - i,
    {
        let p = vstd::slice::slice_index_get(processes, i);
        upsert_exec(&mut groups, p.pid, p.command.as_str(), p.port);
        proof {
            assert(processes@.take(i + 1 as int).drop_last() =~= processes@.take(i as int));
            assert(processes@.take(i + 1 as int).last() == processes@[i as int]);
        }
        i = i + 1;
    }
    proof {
        assert(processes@.take(processes@.len() as int) =~= processes@);
    }
    let ghost gm = groups_of(processes@);
    let mut r: Vec<KillTarget> = Vec::new();
    let mut k: usize = 0;
    while k < groups.len()
        invariant
            k <= groups@.len(),
            group_models(groups@) == gm,
            r@.len() == k,
            forall|j: int|
                0 <= j < k ==> {
                    let g = gm[j];
                    (#[trigger] r@[j]).pid == g.0 && r@[j].label@ == spec_command_label(
                        g.1,
                        sort_ports(g.2),
                    )
                },
        decreases groups@.len() - k,
    {
        let pid = groups[k].0;
        let sorted = sort_ports_exec(&groups[k].2);
        let label = format_command_label(groups[k].1.as_str(), sorted.as_slice());
        r.push(KillTarget { pid, label });
        k = k + 1;
    }
    r
}

// ---------------------------------------------------------------------------
// Ordering project names.
// ---------------------------------------------------------------------------

/// Lexicographic order on character sequences, by code point — the order
/// an ordered map of strings iterates in.
pub open spec fn lex_lt(a: Seq<char>, b: Seq<char>) -> bool
    decreases a.len(),
{
    if b.len() == 0 {
        false
    } else if a.len() == 0 {
        true
    } else if a[0] == b[0] {
        lex_lt(a.skip(1), b.skip(1))
    } else {
        (a[0] as int) < (b[0] as int)
    }
}

/// A character's code point fits a u32, so the two casts agree.
proof fn lemma_char_u32(c: char)
    ensures
        c as u32 == c as int,
{
}

proof fn lemma_lex_skip(a: Seq<char>, b: Seq<char>, i: int)
    requires
        0 <= i <= a.len(),
        i <= b.len(),
        forall|j: int| 0 <= j < i ==> a[j] == b[j],
    ensures
        lex_lt(a, b) == lex_lt(a.skip(i), b.skip(i)),
    decreases i,
{
    if i > 0 {
        lemma_lex_skip(a.skip(1), b.skip(1), i - 1);
        assert(a.skip(1).skip(i - 1) =~= a.skip(i));
        assert(b.skip(1).skip(i - 1) =~= b.skip(i));
    } else {
        assert(a.skip(0) =~= a);
        assert(b.skip(0) =~= b);
    }
}

proof fn lemma_lex_trichotomy(a: Seq<char>, b: Seq<char>)
    ensures
        lex_lt(a, b) || lex_lt(b, a) || a == b,
    decreases a.len(),
{
    if a.len() == 0 {
        if b.len() == 0 {
            assert(a =~= b);
        }
    } else if b.len() == 0 {
    } else if a[0] == b[0] {
        lemma_lex_trichotomy(a.skip(1), b.skip(1));
        if !lex_lt(a, b) && !lex_lt(b, a) {
            assert(a.skip(1) == b.skip(1));
            assert(a.len() == b.len());
            assert forall|i: int| 0 <= i < a.len() implies a[i] == b[i] by {
                if i > 0 {
                    assert(a[i] == a.skip(1)[i - 1]);
                    assert(b[i] == b.skip(1)[i - 1]);
                }
            }
            assert(a =~= b);
        }
    } else {
        if !((a[0] as int) < (b[0] as int)) && !((b[0] as int) < (a[0] as int)) {
            assert((a[0] as int) == (b[0] as int));
            assert(a[0] == b[0]);
        }
    }
}

proof fn lemma_lex_asym(a: Seq<char>, b: Seq<char>)
    requires
        lex_lt(a, b),
    ensures
        !lex_lt(b, a),
        a != b,
    decreases a.len(),
{
    if a.len() > 0 && b.len() > 0 && a[0] == b[0] {
        lemma_lex_asym(a.skip(1), b.skip(1));
        if a == b {
            assert(a.skip(1) =~= b.skip(1));
        }
    }
}

/// Is `a` strictly before `b` in lexicographic order?
#[verifier::loop_isolation(false)]
pub fn string_lt(a: &str, b: &str) -> (r: bool)
    ensures
        r == lex_lt(a@, b@),
{
    let x = chars_of(a);
    let y = chars_of(b);
    let mut i: usize = 0;
    while i < x.len() && i < y.len()
        invariant
            i <= x@.len(),
            i <= y@.len(),
            x@ == a@,
            y@ == b@,
            forall|j: int| 0 <= j < i ==> a@[j] == b@[j],
        decreases x@.len() - i,
    {
        let cx = x[i];
        let cy = y[i];
        if cx != cy {
            proof {
                lemma_lex_skip(a@, b@, i as int);
                assert(a@.skip(i as int)[0] == a@[i as int]);
                assert(b@.skip(i as int)[0] == b@[i as int]);
                assert(cx == a@[i as int]);
                assert(cy == b@[i as int]);
                lemma_char_u32(cx);
                lemma_char_u32(cy);
                assert(lex_lt(a@, b@) == ((cx as int) < (cy as int)));
            }
            return (cx as u32) < (cy as u32);
        }
        i = i + 1;
    }
    proof {
        lemma_lex_skip(a@, b@, i as int);
    }
    x.len() < y.len()
}

// ---------------------------------------------------------------------------
// Grouping listeners by project.
// ---------------------------------------------------------------------------

/// The project name shown for a pid nobody filed a project for.
pub open spec fn name_of(projects: Seq<(i32, String)>, pid: i32) -> Seq<char> {
    match project_of(projects, pid) {
        Option::Some(n) => n,
        Option::None => "(unknown project)"@,
    }
}

/// Files one listener's index under its project name; the accumulator is
/// kept in lexicographic name order.
pub open spec fn upsert_project(
    acc: Seq<(Seq<char>, Seq<usize>)>,
    name: Seq<char>,
    idx: usize,
) -> Seq<(Seq<char>, Seq<usize>)>
    decreases acc.len(),
{
    if acc.len() == 0 {
        seq![(name, seq![idx])]
    } else if acc[0].0 == name {
        seq![(name, acc[0].1.push(idx))] + acc.skip(1)
    } else if lex_lt(name, acc[0].0) {
        seq![(name, seq![idx])] + acc
    } else {
        seq![acc[0]] + upsert_project(acc.skip(1), name, idx)
    }
}

/// The listeners' indices grouped by project name, names in order.
pub open spec fn project_groups(
    ps: Seq<ProcessInfo>,
    projects: Seq<(i32, String)>,
) -> Seq<(Seq<char>, Seq<usize>)>
    decreases ps.len(),
{
    if ps.len() == 0 {
        Seq::<(Seq<char>, Seq<usize>)>::empty()
    } else {
        upsert_project(
            project_groups(ps.drop_last(), projects),
            name_of(projects, ps.last().pid),
            (ps.len() - 1) as usize,
        )
    }
}

pub open spec fn groups_idx_bounded(gs: Seq<(Seq<char>, Seq<usize>)>, n: int) -> bool {
    forall|a: int, b: int|
        0 <= a < gs.len() && 0 <= b < gs[a].1.len() ==> (#[trigger] gs[a].1[b]) < n
}

proof fn lemma_upsert_project_bounded(
    acc: Seq<(Seq<char>, Seq<usize>)>,
    name: Seq<char>,
    idx: usize,
    n: int,
)
    requires
        groups_idx_bounded(acc, n),
        idx < n,
    ensures
        groups_idx_bounded(upsert_project(acc, name, idx), n),
    decreases acc.len(),
{
    if acc.len() == 0 {
    } else if acc[0].0 == name {
    } else if lex_lt(name, acc[0].0) {
    } else {
        assert(groups_idx_bounded(acc.skip(1), n));
        lemma_upsert_project_bounded(acc.skip(1), name, idx, n);
        let out = seq![acc[0]] + upsert_project(acc.skip(1), name, idx);
        assert forall|a: int, b: int|
            0 <= a < out.len() && 0 <= b < out[a].1.len() implies (#[trigger] out[a].1[b])
            < n by {
            if a > 0 {
                assert(out[a] == upsert_project(acc.skip(1), name, idx)[a - 1]);
            }
        }
    }
}

proof fn lemma_project_groups_bounded(ps: Seq<ProcessInfo>, projects: Seq<(i32, String)>)
    ensures
        groups_idx_bounded(project_groups(ps, projects), ps.len() as int),
    decreases ps.len(),
{
    if ps.len() > 0 {
        lemma_project_groups_bounded(ps.drop_last(), projects);
        let prev = project_groups(ps.drop_last(), projects);
        assert(groups_idx_bounded(prev, ps.len() as int));
        lemma_upsert_project_bounded(
            prev,
            name_of(projects, ps.last().pid),
            (ps.len() - 1) as usize,
            ps.len() as int,
        );
    }
}

proof fn lemma_upsert_project_skip(
    acc: Seq<(Seq<char>, Seq<usize>)>,
    name: Seq<char>,
    idx: usize,
    i: int,
)
    requires
        0 <= i <= acc.len(),
        forall|j: int| 0 <= j < i ==> lex_lt((#[trigger] acc[j]).0, name),
    ensures
        upsert_project(acc, name, idx) == acc.take(i) + upsert_project(acc.skip(i), name, idx),
    decreases i,
{
    if i == 0 {
        assert(acc.skip(0) =~= acc);
        assert(acc.take(0) + upsert_project(acc, name, idx) =~= upsert_project(acc, name, idx));
    } else {
        lemma_lex_asym(acc[0].0, name);
        lemma_upsert_project_skip(acc.skip(1), name, idx, i - 1);
        assert(acc.skip(1).take(i - 1) =~= acc.take(i).skip(1));
        assert(acc.skip(1).skip(i - 1) =~= acc.skip(i));
        assert(seq![acc[0]] + (acc.skip(1).take(i - 1) + upsert_project(
            acc.skip(i),
            name,
            idx,
        )) =~= acc.take(i) + upsert_project(acc.skip(i), name, idx));
    }
}

/// The view of the executable grouping accumulator.
pub open spec fn pg_models(v: Seq<(String, Vec<usize>)>) -> Seq<(Seq<char>, Seq<usize>)> {
    v.map(|j: int, g: (String, Vec<usize>)| (g.0@, g.1@))
}

fn upsert_project_exec(groups: &mut Vec<(String, Vec<usize>)>, name: String, idx: usize)
    ensures
        pg_models(final(groups)@) == upsert_project(pg_models(old(groups)@), name@, idx),
{
    let ghost acc = pg_models(old(groups)@);
    let mut i: usize = 0;
    while i < groups.len() && string_lt(groups[i].0.as_str(), name.as_str())
        invariant
            i <= groups@.len(),
            groups@ == old(groups)@,
            forall|j: int| 0 <= j < i ==> lex_lt((#[trigger] pg_models(groups@)[j]).0, name@),
        decreases groups@.len() - i,
    {
        i = i + 1;
    }
    proof {
        lemma_upsert_project_skip(acc, name@, idx, i as int);
    }
    if i < groups.len() && groups[i].0 == name {
        let mut g = groups.remove(i);
        g.1.push(idx);
        groups.insert(i, g);
        proof {
            assert(acc.skip(i as int)[0] == acc[i as int]);
            assert(upsert_project(acc.skip(i as int), name@, idx) =~= seq![
                (name@, acc[i as int].1.push(idx)),
            ] + acc.skip(i as int).skip(1));
            assert(pg_models(groups@) =~= acc.take(i as int) + (seq![
                (name@, acc[i as int].1.push(idx)),
            ] + acc.skip(i as int).skip(1)));
        }
    } else {
        proof {
            if i < groups@.len() {
                assert(acc.skip(i as int)[0] == acc[i as int]);
                assert(acc[i as int].0 != name@);
                assert(!lex_lt(acc[i as int].0, name@));
                lemma_lex_trichotomy(name@, acc[i as int].0);
                assert(lex_lt(name@, acc[i as int].0));
            } else {
                assert(acc.skip(i as int) =~= Seq::<(Seq<char>, Seq<usize>)>::empty());
            }
        }
        let mut only: Vec<usize> = Vec::new();
        only.push(idx);
        groups.insert(i, (name, only));
        proof {
            assert(seq![idx] =~= only@);
            if i < old(groups)@.len() {
                assert(upsert_project(acc.skip(i as int), name@, idx) == seq![(name@, seq![idx])]
                    + acc.skip(i as int));
            }
            assert(pg_models(groups@) =~= acc.take(i as int) + upsert_project(
                acc.skip(i as int),
                name@,
                idx,
            ));
        }
    }
}

// ---------------------------------------------------------------------------
// The menu.
// ---------------------------------------------------------------------------

/// A menu entry at the specification level: id, label, enabled, separator.
pub open spec fn entry_matches(e: MenuEntry, t: (Seq<char>, Seq<char>, bool, bool)) -> bool {
    e.id@ == t.0 && e.label@ == t.1 && e.enabled == t.2 && e.is_separator == t.3
}

pub open spec fn sep_spec() -> (Seq<char>, Seq<char>, bool, bool) {
    (Seq::<char>::empty(), Seq::<char>::empty(), false, true)
}

/// The id and label of one listener's entry, by its stop route.
pub open spec fn route_entry(p: ProcessInfo, route: StopRoute) -> (Seq<char>, Seq<char>) {
    match route {
        StopRoute::Docker { container } => (
            "docker_stop_"@ + container@,
            "Stop container "@ + container@ + " (port "@ + dec_chars(p.port as nat) + ")"@,
        ),
        StopRoute::Brew { service } => ("brew_stop_"@ + service@, "Stop via brew "@ + service@),
        StopRoute::Process => (
            spec_process_menu_id(p.pid as int, p.port as int),
            "Kill "@ + p.command@ + " (PID "@ + int_chars(p.pid as int) + ", port "@ + dec_chars(
                p.port as nat,
            ) + ")"@,
        ),
    }
}

pub open spec fn header_spec(name: Seq<char>) -> (Seq<char>, Seq<char>, bool, bool) {
    ("header_"@ + name, "— "@ + name + " —"@, false, false)
}

/// The entries of one group's listeners, in order of appearance.
pub open spec fn item_entries(
    ps: Seq<ProcessInfo>,
    routes: Seq<StopRoute>,
    idxs: Seq<usize>,
) -> Seq<(Seq<char>, Seq<char>, bool, bool)>
    decreases idxs.len(),
{
    if idxs.len() == 0 {
        Seq::<(Seq<char>, Seq<char>, bool, bool)>::empty()
    } else {
        let e = route_entry(ps[idxs.last() as int], routes[idxs.last() as int]);
        item_entries(ps, routes, idxs.drop_last()).push((e.0, e.1, true, false))
    }
}

/// One group: its header, its listeners, a separator.
pub open spec fn group_entries(
    ps: Seq<ProcessInfo>,
    routes: Seq<StopRoute>,
    g: (Seq<char>, Seq<usize>),
) -> Seq<(Seq<char>, Seq<char>, bool, bool)> {
    seq![header_spec(g.0)] + item_entries(ps, routes, g.1) + seq![sep_spec()]
}

pub open spec fn all_group_entries(
    ps: Seq<ProcessInfo>,
    routes: Seq<StopRoute>,
    gs: Seq<(Seq<char>, Seq<usize>)>,
) -> Seq<(Seq<char>, Seq<char>, bool, bool)>
    decreases gs.len(),
{
    if gs.len() == 0 {
        Seq::<(Seq<char>, Seq<char>, bool, bool)>::empty()
    } else {
        all_group_entries(ps, routes, gs.drop_last()) + group_entries(ps, routes, gs.last())
    }
}

/// The whole menu: the grouped listeners and the kill-all entry — or one
/// disabled placeholder — then the fixed tail.
pub open spec fn spec_menu_entries(
    ps: Seq<ProcessInfo>,
    routes: Seq<StopRoute>,
    projects: Seq<(i32, String)>,
) -> Seq<(Seq<char>, Seq<char>, bool, bool)> {
    let body = if ps.len() == 0 {
        seq![("empty"@, "No dev ports listening"@, false, false)]
    } else {
        all_group_entries(ps, routes, project_groups(ps, projects)) + seq![
            ("kill_all"@, "Kill all ("@ + dec_chars(ps.len() as nat) + ")"@, true, false),
        ]
    };
    body + seq![
        sep_spec(),
        ("snooze_30m"@, "Snooze notifications 30m"@, true, false),
        ("edit_config"@, "Edit Configuration..."@, true, false),
        ("quit"@, "Quit"@, true, false),
    ]
}

fn separator_entry() -> (r: MenuEntry)
    ensures
        entry_matches(r, sep_spec()),
{
    MenuEntry { id: String::new(), label: String::new(), enabled: false, is_separator: true }
}

/// Lays the tray menu out for the given listeners: one section per project
/// (ordered by name), each listener behind its stop route, a kill-all
/// entry, and the fixed tail of snooze, configuration and quit entries.
pub fn build_menu_with_context(
    processes: &[ProcessInfo],
    routes: &[StopRoute],
    projects: &[(i32, String)],
) -> (r: Vec<MenuEntry>)
    requires
        routes@.len() == processes@.len(),
    ensures
        r@.len() == spec_menu_entries(processes@, routes@, projects@).len(),
        forall|j: int|
            0 <= j < r@.len() ==> entry_matches(
                #[trigger] r@[j],
                spec_menu_entries(processes@, routes@, projects@)[j],
            ),
{
    let mut out: Vec<MenuEntry> = Vec::new();
    if processes.len() == 0 {
        let mut id = String::new();
        id.append("empty");
        let mut label = String::new();
        label.append("No dev ports listening");
        out.push(MenuEntry { id, label, enabled: false, is_separator: false });
        proof {
            assert(Seq::<char>::empty() + "empty"@ =~= "empty"@);
            assert(Seq::<char>::empty() + "No dev ports listening"@ =~= "No dev ports listening"@);
        }
    } else {
        let mut groups: Vec<(String, Vec<usize>)> = Vec::new();
        let mut i: usize = 0;
        proof {
            assert(pg_models(groups@) =~= project_groups(processes@.take(0), projects@));
        }
        while i < processes.len()
            invariant
                i <= processes@.len(),
                pg_models(groups@) == project_groups(processes@.take(i as int), projects@),
            decreases processes@.len() - i,
        {
            let p = vstd::slice::slice_index_get(processes, i);
            let name = match project_lookup(projects, p.pid) {
                Some(n) => n,
                None => {
                    let mut u = String::new();
                    u.append("(unknown project)");
                    proof {
                        assert(Seq::<char>::empty() + "(unknown project)"@ =~= "(unknown project)"@);
                    }
                    u
                },
            };
            proof {
                assert(processes@.take(i + 1 as int).drop_last() =~= processes@.take(i as int));
                assert(processes@.take(i + 1 as int).last() == processes@[i as int]);
            }
            upsert_project_exec(&mut groups, name, i);
            i = i + 1;
        }
        proof {
            assert(processes@.take(processes@.len() as int) =~= processes@);
            lemma_project_groups_bounded(processes@, projects@);
        }
        let ghost gm = project_groups(processes@, projects@);
        let mut k: usize = 0;
        while k < groups.len()
            invariant
                k <= groups@.len(),
                pg_models(groups@) == gm,
                groups_idx_bounded(gm, processes@.len() as int),
                routes@.len() == processes@.len(),
                out@.len() == all_group_entries(processes@, routes@, gm.take(k as int)).len(),
                forall|j: int|
                    0 <= j < out@.len() ==> entry_matches(
                        #[trigger] out@[j],
                        all_group_entries(processes@, routes@, gm.take(k as int))[j],
                    ),
            decreases groups@.len() - k,
        {
            let ghost before = all_group_entries(processes@, routes@, gm.take(k as int));
            let name = &groups[k].0;
            let mut hid = String::new();
            hid.append("header_");
            hid.append(name.as_str());
            let mut hlabel = String::new();
            hlabel.append("— ");
            hlabel.append(name.as_str());
            hlabel.append(" —");
            out.push(MenuEntry { id: hid, label: hlabel, enabled: false, is_separator: false });
            proof {
                assert(Seq::<char>::empty() + "header_"@ + name@ =~= "header_"@ + name@);
                assert(Seq::<char>::empty() + "— "@ + name@ + " —"@ =~= "— "@ + name@ + " —"@);
            }
            let idxs = &groups[k].1;
            let ghost g = gm[k as int];
            proof {
                assert(g == (name@, idxs@));
            }
            let mut j: usize = 0;
            while j < idxs.len()
                invariant
                    j <= idxs@.len(),
                    g == (name@, idxs@),
                    gm[k as int] == g,
                    0 <= k < gm.len(),
                    pg_models(groups@) == gm,
                    groups_idx_bounded(gm, processes@.len() as int),
                    routes@.len() == processes@.len(),
                    out@.len() == before.len() + 1 + j,
                    forall|m: int|
                        0 <= m < before.len() ==> entry_matches(#[trigger] out@[m], before[m]),
                    entry_matches(out@[before.len() as int], header_spec(name@)),
                    item_entries(processes@, routes@, idxs@.take(j as int)).len() == j,
                    forall|m: int|
                        0 <= m < j ==> entry_matches(
                            #[trigger] out@[before.len() + 1 + m],
                            item_entries(processes@, routes@, idxs@.take(j as int))[m],
                        ),
                decreases idxs@.len() - j,
            {
                let idx = idxs[j];
                proof {
                    assert(gm[k as int].1[j as int] == idxs@[j as int]);
                    assert(idxs@[j as int] < processes@.len());
                }
                let p = vstd::slice::slice_index_get(processes, idx);
                let route = vstd::slice::slice_index_get(routes, idx);
                let entry = match route {
                    StopRoute::Docker { container } => {
                        let mut id = String::new();
                        id.append("docker_stop_");
                        id.append(container.as_str());
                        let mut label = String::new();
                        label.append("Stop container ");
                        label.append(container.as_str());
                        label.append(" (port ");
                        push_u64(&mut label, p.port as u64);
                        label.append(")");
                        proof {
                            assert(Seq::<char>::empty() + "docker_stop_"@ + container@
                                =~= "docker_stop_"@ + container@);
                            assert(Seq::<char>::empty() + "Stop container "@ + container@
                                + " (port "@ + dec_chars(p.port as nat) + ")"@
                                =~= "Stop container "@ + container@ + " (port "@ + dec_chars(
                                p.port as nat,
                            ) + ")"@);
                        }
                        MenuEntry { id, label, enabled: true, is_separator: false }
                    },
                    StopRoute::Brew { service } => {
                        let mut id = String::new();
                        id.append("brew_stop_");
                        id.append(service.as_str());
                        let mut label = String::new();
                        label.append("Stop via brew ");
                        label.append(service.as_str());
                        proof {
                            assert(Seq::<char>::empty() + "brew_stop_"@ + service@
                                =~= "brew_stop_"@ + service@);
                            assert(Seq::<char>::empty() + "Stop via brew "@ + service@
                                =~= "Stop via brew "@ + service@);
                        }
                        MenuEntry { id, label, enabled: true, is_separator: false }
                    },
                    StopRoute::Process => {
                        let id = process_menu_id(p.pid, p.port);
                        let mut label = String::new();
                        label.append("Kill ");
                        label.append(p.command.as_str());
                        label.append(" (PID ");
                        push_i64(&mut label, p.pid as i64);
                        label.append(", port ");
                        push_u64(&mut label, p.port as u64);
                        label.append(")");
                        proof {
                            assert(Seq::<char>::empty() + "Kill "@ + p.command@ + " (PID "@
                                + int_chars(p.pid as int) + ", port "@ + dec_chars(p.port as nat)
                                + ")"@ =~= "Kill "@ + p.command@ + " (PID "@ + int_chars(
                                p.pid as int,
                            ) + ", port "@ + dec_chars(p.port as nat) + ")"@);
                        }
                        MenuEntry { id, label, enabled: true, is_separator: false }
                    },
                };
                out.push(entry);
                proof {
                    assert(idxs@.take(j + 1 as int).drop_last() =~= idxs@.take(j as int));
                    assert(idxs@.take(j + 1 as int).last() == idxs@[j as int]);
                    assert(item_entries(processes@, routes@, idxs@.take(j + 1 as int))
                        == item_entries(processes@, routes@, idxs@.take(j as int)).push(
                        (
                            route_entry(
                                processes@[idxs@[j as int] as int],
                                routes@[idxs@[j as int] as int],
                            ).0,
                            route_entry(
                                processes@[idxs@[j as int] as int],
                                routes@[idxs@[j as int] as int],
                            ).1,
                            true,
                            false,
                        ),
                    ));
                }
                j = j + 1;
            }
            out.push(separator_entry());
            proof {
                assert(gm.take(k + 1 as int).drop_last() =~= gm.take(k as int));
                assert(gm.take(k + 1 as int).last() == gm[k as int]);
                assert(idxs@.take(idxs@.len() as int) =~= idxs@);
                let whole = all_group_entries(processes@, routes@, gm.take(k + 1 as int));
                let items = item_entries(processes@, routes@, idxs@);
                assert(whole == before + (seq![header_spec(name@)] + items + seq![sep_spec()]));
                assert forall|m: int|
                    0 <= m < out@.len() implies entry_matches(#[trigger] out@[m], whole[m]) by {
                    if m < before.len() {
                        assert(whole[m] == before[m]);
                    } else if m == before.len() {
                        assert(whole[m] == header_spec(name@));
                    } else if m < before.len() + 1 + items.len() {
                        let mm = m - before.len() - 1;
                        assert(whole[m] == items[mm]);
                        assert(out@[before.len() + 1 + mm] == out@[m]);
                    } else {
                        assert(whole[m] == sep_spec());
                    }
                }
            }
            k = k + 1;
        }
        proof {
            assert(gm.take(gm.len() as int) =~= gm);
        }
        let mut kid = String::new();
        kid.append("kill_all");
        let mut klabel = String::new();
        klabel.append("Kill all (");
        push_u64(&mut klabel, processes.len() as u64);
        klabel.append(")");
        out.push(MenuEntry { id: kid, label: klabel, enabled: true, is_separator: false });
        proof {
            assert(Seq::<char>::empty() + "kill_all"@ =~= "kill_all"@);
            assert(Seq::<char>::empty() + "Kill all ("@ + dec_chars(processes@.len() as nat) + ")"@
                =~= "Kill all ("@ + dec_chars(processes@.len() as nat) + ")"@);
        }
    }
    out.push(separator_entry());
    let mut sid = String::new();
    sid.append("snooze_30m");
    let mut slabel = String::new();
    slabel.append("Snooze notifications 30m");
    out.push(MenuEntry { id: sid, label: slabel, enabled: true, is_separator: false });
    let mut eid = String::new();
    eid.append("edit_config");
    let mut elabel = String::new();
    elabel.append("Edit Configuration...");
    out.push(MenuEntry { id: eid, label: elabel, enabled: true, is_separator: false });
    let mut qid = String::new();
    qid.append("quit");
    let mut qlabel = String::new();
    qlabel.append("Quit");
    out.push(MenuEntry { id: qid, label: qlabel, enabled: true, is_separator: false });
    proof {
        assert(Seq::<char>::empty() + "snooze_30m"@ =~= "snooze_30m"@);
        assert(Seq::<char>::empty() + "Snooze notifications 30m"@ =~= "Snooze notifications 30m"@);
        assert(Seq::<char>::empty() + "edit_config"@ =~= "edit_config"@);
        assert(Seq::<char>::empty() + "Edit Configuration..."@ =~= "Edit Configuration..."@);
        assert(Seq::<char>::empty() + "quit"@ =~= "quit"@);
        assert(Seq::<char>::empty() + "Quit"@ =~= "Quit"@);
    }
    out
}

} // verus!
